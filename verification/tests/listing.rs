use cockpit_logger::listing::{
    compare_log_paths_by_recency, get_latest_app_log_file, list_log_files_by_name,
    list_managed_log_files, resolve_managed_log_file, DirEntry, DirScan, LogFile,
};
use std::cmp::Ordering;

fn entry(name: &str, modified: i128) -> Result<DirEntry, String> {
    Ok(DirEntry { name: Some(name.to_string()), is_file: true, modified: Some(modified) })
}

fn file(name: &str, modified: i128) -> LogFile {
    LogFile { name: name.to_string(), modified }
}

fn names(res: Result<Vec<LogFile>, String>) -> Vec<String> {
    match res {
        Ok(files) => files.into_iter().map(|file| file.name).collect(),
        Err(message) => panic!("{}", message),
    }
}

fn sample() -> DirScan {
    DirScan::Entries(vec![
        entry("app.log.2024-05-01", 10),
        entry("codex-api.log.2024-05-02", 30),
        entry("notes.txt", 99),
        entry("app.log.2024-05-02", 20),
        Ok(DirEntry { name: Some("app.log.d".to_string()), is_file: false, modified: Some(50) }),
        Ok(DirEntry { name: None, is_file: true, modified: Some(60) }),
        Ok(DirEntry { name: Some("app.log".to_string()), is_file: true, modified: None }),
    ])
}

#[test]
fn latest_comes_first() {
    assert_eq!(
        names(list_managed_log_files(&sample())),
        vec!["codex-api.log.2024-05-02", "app.log.2024-05-02", "app.log.2024-05-01", "app.log"]
    );
}

#[test]
fn unknown_time_counts_as_epoch() {
    let files = list_managed_log_files(&sample()).unwrap();
    assert_eq!(files[3].name, "app.log");
    assert_eq!(files[3].modified, 0);
    let scan = DirScan::Entries(vec![
        entry("app.log.old", -5),
        Ok(DirEntry { name: Some("app.log".to_string()), is_file: true, modified: None }),
    ]);
    assert_eq!(names(list_managed_log_files(&scan)), vec!["app.log", "app.log.old"]);
}

#[test]
fn equal_times_are_ordered_by_name_descending() {
    let scan = DirScan::Entries(vec![
        entry("app.log.a", 7),
        entry("app.log.é", 7),
        entry("app.log.b", 7),
        entry("app.log", 7),
        entry("app.log.😀", 7),
        entry("app.log.\u{ffee}", 7),
    ]);
    let listed = names(list_managed_log_files(&scan));
    let mut expected = listed.clone();
    expected.sort_by(|a, b| b.cmp(a));
    assert_eq!(listed, expected);
    assert_eq!(listed[0], "app.log.😀");
    assert_eq!(listed[5], "app.log");
}

#[test]
fn order_of_entries_does_not_matter() {
    let forward: Vec<i128> = vec![3, 1, 2, 2, 5, 4, 1];
    let make = |times: &Vec<(usize, i128)>| {
        DirScan::Entries(
            times.iter().map(|(i, t)| entry(&format!("app.log.{i}"), *t)).collect(),
        )
    };
    let mut numbered: Vec<(usize, i128)> = forward.into_iter().enumerate().collect();
    let first = names(list_managed_log_files(&make(&numbered)));
    assert_eq!(
        first,
        vec![
            "app.log.4", "app.log.5", "app.log.0", "app.log.3", "app.log.2", "app.log.6",
            "app.log.1"
        ]
    );
    numbered.reverse();
    assert_eq!(names(list_managed_log_files(&make(&numbered))), first);
    numbered.rotate_left(3);
    assert_eq!(names(list_managed_log_files(&make(&numbered))), first);
}

#[test]
fn comparison_puts_the_later_file_first() {
    assert_eq!(compare_log_paths_by_recency(&file("a", 2), &file("b", 1)), Ordering::Less);
    assert_eq!(compare_log_paths_by_recency(&file("a", 1), &file("b", 2)), Ordering::Greater);
    assert_eq!(compare_log_paths_by_recency(&file("b", 1), &file("a", 1)), Ordering::Less);
    assert_eq!(compare_log_paths_by_recency(&file("a", 1), &file("b", 1)), Ordering::Greater);
    assert_eq!(compare_log_paths_by_recency(&file("a", 1), &file("a", 1)), Ordering::Equal);
    assert_eq!(compare_log_paths_by_recency(&file("ab", 1), &file("a", 1)), Ordering::Less);
}

#[test]
fn matcher_selects_names() {
    let listed = names(list_log_files_by_name(&sample(), |name: &str| name.ends_with(".txt")));
    assert_eq!(listed, vec!["notes.txt"]);
    let listed = names(list_log_files_by_name(&sample(), |_: &str| false));
    assert!(listed.is_empty());
}

#[test]
fn matcher_with_changing_answers_is_asked_once_for_each_file() {
    let asked = std::cell::Cell::new(0usize);
    let listed = names(list_log_files_by_name(&sample(), |_: &str| {
        asked.set(asked.get() + 1);
        asked.get() % 2 == 1
    }));
    assert_eq!(asked.get(), 5);
    assert_eq!(listed, vec!["notes.txt", "app.log.2024-05-01", "app.log"]);
}

#[test]
fn missing_directory_is_reported() {
    let scan = DirScan::NoLogDir("创建日志目录失败: no".to_string());
    assert_eq!(list_managed_log_files(&scan).err().unwrap(), "创建日志目录失败: no");
    assert_eq!(get_latest_app_log_file(&scan).err().unwrap(), "创建日志目录失败: no");
    assert_eq!(resolve_managed_log_file(&scan, None).err().unwrap(), "创建日志目录失败: no");
}

#[test]
fn unreadable_directory_is_reported() {
    let scan = DirScan::Unreadable("denied".to_string());
    assert_eq!(list_managed_log_files(&scan).err().unwrap(), "读取日志目录失败: denied");
}

#[test]
fn first_unreadable_entry_is_reported() {
    let scan = DirScan::Entries(vec![
        entry("app.log", 1),
        Err("first".to_string()),
        Err("second".to_string()),
    ]);
    assert_eq!(list_managed_log_files(&scan).err().unwrap(), "读取日志目录项失败: first");
    assert_eq!(
        resolve_managed_log_file(&scan, Some("app.log")).err().unwrap(),
        "读取日志目录项失败: first"
    );
}

#[test]
fn empty_directory_has_no_log_file() {
    let scan = DirScan::Entries(vec![entry("notes.txt", 1)]);
    assert_eq!(resolve_managed_log_file(&scan, None).err().unwrap(), "未找到可用日志文件");
    assert_eq!(
        resolve_managed_log_file(&scan, Some("app.log")).err().unwrap(),
        "未找到可用日志文件"
    );
    assert_eq!(get_latest_app_log_file(&scan).err().unwrap(), "未找到可用日志文件");
}

#[test]
fn named_file_is_picked() {
    let picked = resolve_managed_log_file(&sample(), Some(" app.log.2024-05-01\n")).unwrap();
    assert_eq!(picked.name, "app.log.2024-05-01");
    assert_eq!(picked.modified, 10);
}

#[test]
fn unknown_name_is_reported_trimmed() {
    assert_eq!(
        resolve_managed_log_file(&sample(), Some("  notes.txt ")).err().unwrap(),
        "未找到指定日志文件: notes.txt"
    );
    assert_eq!(
        resolve_managed_log_file(&sample(), Some("../app.log")).err().unwrap(),
        "未找到指定日志文件: ../app.log"
    );
}

#[test]
fn blank_request_picks_the_latest() {
    for request in [None, Some(""), Some("  \t\u{3000}")] {
        let picked = resolve_managed_log_file(&sample(), request).unwrap();
        assert_eq!(picked.name, "codex-api.log.2024-05-02");
    }
}

#[test]
fn name_that_ends_in_white_space_cannot_be_asked_for() {
    let scan = DirScan::Entries(vec![entry("app.log. ", 1)]);
    assert_eq!(names(list_managed_log_files(&scan)), vec!["app.log. "]);
    assert_eq!(
        resolve_managed_log_file(&scan, Some("app.log. ")).err().unwrap(),
        "未找到指定日志文件: app.log."
    );
}

#[test]
fn every_listed_file_resolves() {
    for listed in names(list_managed_log_files(&sample())) {
        assert_eq!(resolve_managed_log_file(&sample(), Some(&listed)).unwrap().name, listed);
    }
}

#[test]
fn latest_app_log_is_no_codex_log() {
    let latest = get_latest_app_log_file(&sample()).unwrap();
    assert_eq!(latest.name, "app.log.2024-05-02");
    assert_eq!(latest.modified, 20);
    let first_app = names(list_managed_log_files(&sample()))
        .into_iter()
        .find(|name| name.starts_with("app.log"))
        .unwrap();
    assert_eq!(first_app, latest.name);
}

use cockpit_logger::listing::{list_managed_log_files, DirEntry, DirScan};
use cockpit_logger::retention::{
    cleanup_action, cleanup_expired_logs, cleanup_summary, expiry_cutoff, note_removal,
    CleanupAction, CleanupEntry, CleanupScan, ModifiedAt,
};

fn entry(name: &str, is_file: bool, modified: ModifiedAt) -> Result<CleanupEntry, String> {
    Ok(CleanupEntry {
        name: Some(name.to_string()),
        path: format!("\"/logs/{name}\""),
        is_file,
        modified,
    })
}

fn shown(action: CleanupAction) -> String {
    match action {
        CleanupAction::Keep => "keep".to_string(),
        CleanupAction::Warn(message) => format!("warn {message}"),
        CleanupAction::Remove => "remove".to_string(),
    }
}

#[test]
fn cutoff_is_three_days_back() {
    assert_eq!(expiry_cutoff(259200, 0), 0);
    assert_eq!(expiry_cutoff(259201, 7), 1_000_000_007);
    assert_eq!(expiry_cutoff(0, 0), -259_200_000_000_000);
    assert_eq!(expiry_cutoff(1_700_000_000, 123), 1_699_740_800_000_000_123);
    assert_eq!(expiry_cutoff(i64::MIN, 0), (i64::MIN as i128 - 259200) * 1_000_000_000);
}

#[test]
fn cutoff_agrees_with_chrono() {
    let now = chrono::DateTime::from_timestamp(1_717_171_717, 987_654_321).unwrap();
    let cutoff = now - chrono::Duration::days(3);
    assert_eq!(
        expiry_cutoff(now.timestamp(), now.timestamp_subsec_nanos()),
        cutoff.timestamp_nanos_opt().unwrap() as i128
    );
}

#[test]
fn expired_log_is_removed() {
    assert_eq!(shown(cleanup_action(&entry("app.log.x", true, ModifiedAt::Known(9)), 10)), "remove");
    assert_eq!(
        shown(cleanup_action(&entry("codex-api.log", true, ModifiedAt::Known(-1)), 10)),
        "remove"
    );
}

#[test]
fn log_at_the_cutoff_is_kept() {
    assert_eq!(shown(cleanup_action(&entry("app.log", true, ModifiedAt::Known(10)), 10)), "keep");
    assert_eq!(shown(cleanup_action(&entry("app.log", true, ModifiedAt::Known(11)), 10)), "keep");
}

#[test]
fn other_entries_are_kept() {
    assert_eq!(shown(cleanup_action(&entry("notes.txt", true, ModifiedAt::Known(0)), 10)), "keep");
    assert_eq!(shown(cleanup_action(&entry("app.log", false, ModifiedAt::Known(0)), 10)), "keep");
    let nameless = Ok(CleanupEntry {
        name: None,
        path: "?".to_string(),
        is_file: true,
        modified: ModifiedAt::Known(0),
    });
    assert_eq!(shown(cleanup_action(&nameless, 10)), "keep");
    assert_eq!(
        shown(cleanup_action(
            &entry("notes.txt", true, ModifiedAt::NoMetadata("gone".to_string())),
            10
        )),
        "keep"
    );
}

#[test]
fn failures_are_warned_about() {
    assert_eq!(
        shown(cleanup_action(&Err("broken".to_string()), 10)),
        "warn 读取日志文件失败，已忽略: broken"
    );
    assert_eq!(
        shown(cleanup_action(
            &entry("app.log", true, ModifiedAt::NoMetadata("gone".to_string())),
            10
        )),
        "warn 读取日志元数据失败，已忽略: \"/logs/app.log\", gone"
    );
    assert_eq!(
        shown(cleanup_action(&entry("app.log", true, ModifiedAt::NoTime("none".to_string())), 10)),
        "warn 读取日志修改时间失败，已忽略: \"/logs/app.log\", none"
    );
}

#[test]
fn plan_has_an_action_for_each_entry() {
    let scan = CleanupScan::Entries(vec![
        entry("app.log", true, ModifiedAt::Known(20)),
        Err("e".to_string()),
        entry("app.log.1", true, ModifiedAt::Known(5)),
        entry("notes.txt", true, ModifiedAt::Known(5)),
    ]);
    let plan: Vec<String> = cleanup_expired_logs(&scan, 10).into_iter().map(shown).collect();
    assert_eq!(plan, vec!["keep", "warn 读取日志文件失败，已忽略: e", "remove", "keep"]);
    assert!(cleanup_expired_logs(&CleanupScan::Entries(Vec::new()), 10).is_empty());
}

#[test]
fn unreadable_directory_skips_the_cleanup() {
    let scan = CleanupScan::Unreadable("denied".to_string());
    let plan: Vec<String> = cleanup_expired_logs(&scan, 10).into_iter().map(shown).collect();
    assert_eq!(plan, vec!["warn 读取日志目录失败，跳过清理: denied"]);
}

#[test]
fn recent_log_survives_the_cutoff_of_now() {
    let now: i64 = 1_700_000_000;
    let cutoff = expiry_cutoff(now, 0);
    let three_days: i128 = 3 * 86400 * 1_000_000_000;
    let at = |age: i128| ModifiedAt::Known(now as i128 * 1_000_000_000 - age);
    assert_eq!(shown(cleanup_action(&entry("app.log", true, at(0)), cutoff)), "keep");
    assert_eq!(shown(cleanup_action(&entry("app.log", true, at(three_days)), cutoff)), "keep");
    assert_eq!(shown(cleanup_action(&entry("app.log", true, at(three_days + 1)), cutoff)), "remove");
}

#[test]
fn removed_log_is_a_listed_one() {
    for name in ["app.log", "app.log.1", "codex-api.log.2", "notes.txt", "app.logs"] {
        let action = cleanup_action(&entry(name, true, ModifiedAt::Known(0)), 10);
        let listed = list_managed_log_files(&DirScan::Entries(vec![Ok(DirEntry {
            name: Some(name.to_string()),
            is_file: true,
            modified: Some(0),
        })]))
        .unwrap();
        assert_eq!(matches!(action, CleanupAction::Remove), listed.len() == 1, "{name}");
    }
}

#[test]
fn only_successful_removals_are_counted() {
    assert_eq!(note_removal(4, "\"/logs/app.log\"", &Ok(())), (5, None));
    assert_eq!(
        note_removal(4, "\"/logs/app.log\"", &Err("busy".to_string())),
        (4, Some("删除过期日志失败，已忽略: \"/logs/app.log\", busy".to_string()))
    );
    assert_eq!(note_removal(usize::MAX, "p", &Err(String::new())).0, usize::MAX);
    let outcomes = [Ok(()), Err("a".to_string()), Ok(()), Ok(()), Err("b".to_string())];
    let mut removed = 0;
    for outcome in &outcomes {
        removed = note_removal(removed, "p", outcome).0;
    }
    assert_eq!(removed, 3);
}

#[test]
fn summary_counts_removed_files() {
    assert_eq!(cleanup_summary(0), None);
    assert_eq!(
        cleanup_summary(12),
        Some("日志清理完成：删除 12 个超过 3 天的日志文件".to_string())
    );
}

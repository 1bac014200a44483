use cockpit_logger::names::{
    is_log_file_with_prefix, is_managed_log_file, is_managed_log_file_name, APP_LOG_FILE_PREFIX,
    CODEX_API_LOG_FILE_PREFIX,
};

#[test]
fn stem_alone_and_stem_with_dot_match() {
    assert!(is_log_file_with_prefix("app.log", "app.log"));
    assert!(is_log_file_with_prefix("app.log.2024-05-01", "app.log"));
    assert!(is_log_file_with_prefix("app.log.", "app.log"));
    assert!(!is_log_file_with_prefix("app.logs", "app.log"));
    assert!(!is_log_file_with_prefix("app.log-old", "app.log"));
    assert!(!is_log_file_with_prefix("xapp.log", "app.log"));
    assert!(!is_log_file_with_prefix("app.lo", "app.log"));
    assert!(!is_log_file_with_prefix("", "app.log"));
}

#[test]
fn empty_stem_matches_empty_and_dotted_names() {
    assert!(is_log_file_with_prefix("", ""));
    assert!(is_log_file_with_prefix(".x", ""));
    assert!(!is_log_file_with_prefix("x", ""));
}

#[test]
fn both_logs_are_managed() {
    assert!(is_managed_log_file_name("app.log"));
    assert!(is_managed_log_file_name("app.log.2024-05-01"));
    assert!(is_managed_log_file_name("codex-api.log"));
    assert!(is_managed_log_file_name("codex-api.log.2024-05-01"));
    assert!(!is_managed_log_file_name("codex-api.logx"));
    assert!(!is_managed_log_file_name("other.log"));
    assert!(!is_managed_log_file_name("APP.LOG"));
}

#[test]
fn no_name_belongs_to_both_logs() {
    for name in ["app.log", "app.log.1", "codex-api.log", "codex-api.log.1", "x"] {
        assert!(
            !(is_log_file_with_prefix(name, APP_LOG_FILE_PREFIX)
                && is_log_file_with_prefix(name, CODEX_API_LOG_FILE_PREFIX))
        );
    }
}

#[test]
fn path_without_readable_name_is_not_managed() {
    assert!(!is_managed_log_file(None));
    assert!(is_managed_log_file(Some("app.log")));
    assert!(!is_managed_log_file(Some("notes.txt")));
}

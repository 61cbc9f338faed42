use zyntax::history::{count_u32, stats_from_row, sum_u64, summary_from_row, UsageSummary};
use zyntax::logging::{LineVisitor, LogBuffer, LogLine, CAPACITY};
use zyntax::paths::Paths;

fn line(timestamp: i64, message: String) -> LogLine {
    LogLine {
        timestamp,
        level: "INFO".to_owned(),
        target: "test".to_owned(),
        message,
    }
}

#[test]
fn the_buffer_is_bounded() {
    let mut buffer = LogBuffer::new();
    for index in 0..CAPACITY + 500 {
        buffer.push(line(index as i64, format!("line {index}")));
    }

    let lines = buffer.recent(CAPACITY * 2);
    assert_eq!(lines.len(), CAPACITY, "must not grow without bound");

    assert_eq!(lines[0].timestamp, 500);

    buffer.clear();
    assert_eq!(buffer.len(), 0);
}

#[test]
fn recent_returns_at_most_the_requested_count() {
    let mut buffer = LogBuffer::new();
    for index in 0..10 {
        buffer.push(line(index, String::new()));
    }

    let lines = buffer.recent(3);
    assert_eq!(lines.len(), 3);

    assert_eq!(lines[2].timestamp, 9);
}

#[test]
fn structured_fields_are_appended_to_the_message() {
    let visitor = LineVisitor {
        message: "hotkey registered".to_owned(),
        fields: vec!["accelerator=Ctrl+Alt+G".to_owned()],
    };

    assert_eq!(
        visitor.finish(),
        "hotkey registered (accelerator=Ctrl+Alt+G)"
    );
}

#[test]
fn a_message_without_fields_is_left_alone() {
    let visitor = LineVisitor {
        message: "starting".to_owned(),
        fields: Vec::new(),
    };
    assert_eq!(visitor.finish(), "starting");
}

#[test]
fn recorded_fields_are_named_and_the_message_unquoted() {
    let mut visitor = LineVisitor::new();
    visitor.record_debug("message", "\"correction completed\"");
    visitor.record_debug("changed", "true");
    visitor.record_str("provider", "gemini");
    assert_eq!(
        visitor.finish(),
        "correction completed (changed=true, provider=gemini)"
    );
    let mut plain = LineVisitor::new();
    plain.record_str("message", "\"kept\"");
    assert_eq!(plain.finish(), "\"kept\"");
}

#[test]
fn resolving_twice_is_idempotent() {
    let root = "/tmp/zyntax-paths-root";
    let first = Paths::rooted_at(root);
    let second = Paths::rooted_at(root);
    assert_eq!(first.settings_file(), second.settings_file());
}

#[test]
fn file_paths_live_under_the_right_directories() {
    let paths = Paths::rooted_at("/tmp/zyntax-paths-root");

    assert!(paths.settings_file().starts_with(paths.config_dir()));
    assert!(paths.history_db().starts_with(paths.data_dir()));
    assert!(paths.fallback_key_file().starts_with(paths.data_dir()));
}

#[test]
fn rooted_directories_are_distinct() {
    let paths = Paths::rooted_at("/tmp/zyntax-paths-root");
    assert_ne!(paths.config_dir(), paths.data_dir());
    assert_ne!(paths.logs_dir(), paths.data_dir());
    assert!(paths.logs_dir().ends_with("logs"));
    assert!(paths.config_dir().starts_with("/tmp/zyntax-paths-root"));
    assert_ne!(paths.fallback_key_file(), paths.fallback_secrets_file());
}

#[test]
fn database_counts_saturate_and_sums_floor_at_zero() {
    assert_eq!(count_u32(-1), u32::MAX);
    assert_eq!(count_u32(7), 7);
    assert_eq!(count_u32(i64::from(u32::MAX) + 1), u32::MAX);
    assert_eq!(sum_u64(-5), 0);
    assert_eq!(sum_u64(42), 42);
    let summary = summary_from_row(3, 100, -1);
    assert_eq!(summary, UsageSummary { fixes: 3, input_tokens: 100, output_tokens: 0 });
    assert_eq!(summary.total_tokens(), 100);
    let stats = stats_from_row(2, Some(1_700_000_000));
    assert_eq!(stats.total_fixes, 2);
    assert_eq!(stats.last_fix, Some(1_700_000_000));
    let full = UsageSummary { fixes: 1, input_tokens: u64::MAX, output_tokens: 1 };
    assert_eq!(full.total_tokens(), u64::MAX);
}

#[test]
fn each_file_is_its_exact_name_joined_onto_its_directory() {
    let sep = std::path::MAIN_SEPARATOR;
    let paths = Paths::rooted_at("base");
    assert_eq!(paths.config_dir(), format!("base{sep}config"));
    assert_eq!(paths.data_dir(), format!("base{sep}data"));
    assert_eq!(paths.logs_dir(), format!("base{sep}data{sep}logs"));
    assert_eq!(paths.settings_file(), format!("base{sep}config{sep}settings.json"));
    assert_eq!(paths.history_db(), format!("base{sep}data{sep}history.db"));
    assert_eq!(paths.fallback_key_file(), format!("base{sep}data{sep}secrets.key"));
    assert_eq!(paths.fallback_secrets_file(), format!("base{sep}data{sep}secrets.enc"));
    let trailing = Paths::from_dirs(format!("cfg{sep}"), "dat".to_owned());
    assert_eq!(trailing.settings_file(), format!("cfg{sep}settings.json"));
}

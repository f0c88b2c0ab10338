use smartlog::app::{App, InputMode};
use smartlog::config::MAX_LOG_BUFFER_SIZE;
use smartlog::parser::{LogEntry, LogLevel};
use smartlog::theme::Theme;
use std::path::PathBuf;

fn make_entry(msg: &str, level: LogLevel) -> LogEntry {
    LogEntry {
        raw: msg.to_string(),
        pretty: msg.to_string(),
        level,
        timestamp: None,
        source: None,
    }
}

#[test]
fn test_new_app_defaults() {
    let app = App::new();
    assert_eq!(app.input_mode, InputMode::Normal);
    assert!(app.input_buffer.is_empty());
    assert_eq!(app.logs.len(), 0);
    assert_eq!(app.scroll, 0);
    assert!(app.auto_scroll);
    assert!(!app.should_quit);
    assert!(app.line_wrap);
    assert!(app.min_log_level.is_none());
    assert!(!app.use_regex);
    assert!(app.source_label.is_empty());
    assert_eq!(app.export_dir, PathBuf::from("."));
    assert!(app.last_export_message.is_none());
    assert!(!app.show_timestamps);
    assert_eq!(app.theme, Theme::dark());
}

#[test]
fn default_app_is_new_app() {
    let app = App::default();
    assert_eq!(app.input_mode, InputMode::Normal);
    assert_eq!(app.visible_height, 20);
    assert_eq!(app.visible_width, 80);
    assert_eq!(app.logs_processed, 0);
    assert_eq!(app.theme, Theme::dark());
    assert!(app.highlight_regex().is_none());
    assert!(!app.is_regex_invalid());
}

#[test]
fn test_on_log_adds_entry() {
    let mut app = App::new();
    app.on_log(make_entry("test", LogLevel::Info));
    assert_eq!(app.logs.len(), 1);
    assert_eq!(app.logs_processed, 1);
}

#[test]
fn test_logs_processed_is_u64() {
    let mut app = App::new();
    app.logs_processed = u64::from(u32::MAX) + 1;
    app.on_log(make_entry("test", LogLevel::Info));
    assert_eq!(app.logs_processed, u64::from(u32::MAX) + 2);
}

#[test]
fn test_on_log_buffer_overflow_evicts_oldest() {
    let mut app = App::new();
    for i in 0..MAX_LOG_BUFFER_SIZE + 10 {
        app.on_log(make_entry(&format!("log {}", i), LogLevel::Info));
    }
    assert_eq!(app.logs.len(), MAX_LOG_BUFFER_SIZE);
    assert_eq!(app.logs_processed, (MAX_LOG_BUFFER_SIZE + 10) as u64);
    assert_eq!(app.logs.front().unwrap().pretty, "log 10");
}

#[test]
fn test_on_log_overflow_adjusts_scroll() {
    let mut app = App::new();
    app.auto_scroll = false;
    for _ in 0..MAX_LOG_BUFFER_SIZE {
        app.on_log(make_entry("fill", LogLevel::Info));
    }
    app.scroll = 5;
    app.on_log(make_entry("overflow", LogLevel::Info));
    assert_eq!(app.scroll, 4);
}

#[test]
fn test_scroll_up_disables_auto_scroll() {
    let mut app = App::new();
    app.on_log(make_entry("a", LogLevel::Info));
    app.on_log(make_entry("b", LogLevel::Info));
    app.scroll = 1;
    app.scroll_up();
    assert!(!app.auto_scroll);
    assert_eq!(app.scroll, 0);
}

#[test]
fn test_scroll_up_saturates_at_zero() {
    let mut app = App::new();
    app.scroll = 0;
    app.scroll_up();
    assert_eq!(app.scroll, 0);
}

#[test]
fn test_scroll_down_does_not_re_enable_auto_scroll() {
    let mut app = App::new();
    app.on_log(make_entry("a", LogLevel::Info));
    app.on_log(make_entry("b", LogLevel::Info));
    app.auto_scroll = false;
    app.scroll = 0;
    app.scroll_down();
    assert!(!app.auto_scroll);
    assert_eq!(app.scroll, 1);
}

#[test]
fn test_scroll_to_top() {
    let mut app = App::new();
    app.on_log(make_entry("a", LogLevel::Info));
    app.on_log(make_entry("b", LogLevel::Info));
    app.scroll = 1;
    app.scroll_to_top();
    assert_eq!(app.scroll, 0);
    assert!(!app.auto_scroll);
}

#[test]
fn test_scroll_to_bottom() {
    let mut app = App::new();
    app.on_log(make_entry("a", LogLevel::Info));
    app.on_log(make_entry("b", LogLevel::Info));
    app.scroll = 0;
    app.auto_scroll = false;
    app.scroll_to_bottom();
    assert_eq!(app.scroll, 1);
    assert!(app.auto_scroll);
}

#[test]
fn test_scroll_up_by() {
    let mut app = App::new();
    for _ in 0..20 {
        app.on_log(make_entry("line", LogLevel::Info));
    }
    app.scroll = 15;
    app.scroll_up_by(10);
    assert_eq!(app.scroll, 5);
    assert!(!app.auto_scroll);
}

#[test]
fn test_scroll_up_by_saturates() {
    let mut app = App::new();
    for _ in 0..10 {
        app.on_log(make_entry("line", LogLevel::Info));
    }
    app.scroll = 3;
    app.scroll_up_by(100);
    assert_eq!(app.scroll, 0);
}

#[test]
fn test_scroll_down_by_clamps() {
    let mut app = App::new();
    for _ in 0..5 {
        app.on_log(make_entry("line", LogLevel::Info));
    }
    app.auto_scroll = false;
    app.scroll = 0;
    app.scroll_down_by(100);
    assert_eq!(app.scroll, 4);
    assert!(!app.auto_scroll);
}

#[test]
fn test_clamp_scroll_reduces_beyond_filtered() {
    let mut app = App::new();
    app.on_log(make_entry("alpha", LogLevel::Info));
    app.on_log(make_entry("beta", LogLevel::Info));
    app.on_log(make_entry("gamma", LogLevel::Info));
    app.scroll = 2;
    app.input_buffer = "alpha".to_string();
    app.rebuild_matcher();
    app.clamp_scroll();
    assert_eq!(app.scroll, 0);
}

#[test]
fn test_clamp_scroll_no_matches() {
    let mut app = App::new();
    app.on_log(make_entry("hello", LogLevel::Info));
    app.scroll = 5;
    app.input_buffer = "zzz".to_string();
    app.rebuild_matcher();
    app.clamp_scroll();
    assert_eq!(app.scroll, 0);
}

#[test]
fn test_clamp_scroll_within_range_unchanged() {
    let mut app = App::new();
    for _ in 0..10 {
        app.on_log(make_entry("line", LogLevel::Info));
    }
    app.scroll = 5;
    app.clamp_scroll();
    assert_eq!(app.scroll, 5);
}

#[test]
fn test_scroll_down_empty_filter_no_auto_scroll() {
    let mut app = App::new();
    app.input_buffer = "nonexistent".to_string();
    app.rebuild_matcher();
    app.auto_scroll = false;
    app.scroll = 0;
    app.scroll_down();
    assert!(!app.auto_scroll);
}

#[test]
fn test_scroll_down_by_empty_filter_no_auto_scroll() {
    let mut app = App::new();
    app.input_buffer = "nonexistent".to_string();
    app.rebuild_matcher();
    app.auto_scroll = false;
    app.scroll = 0;
    app.scroll_down_by(10);
    assert!(!app.auto_scroll);
}

#[test]
fn test_get_filtered_count_no_filter() {
    let mut app = App::new();
    app.on_log(make_entry("hello", LogLevel::Info));
    app.on_log(make_entry("world", LogLevel::Warn));
    assert_eq!(app.get_filtered_count(), 2);
}

#[test]
fn test_get_filtered_count_with_filter() {
    let mut app = App::new();
    app.on_log(make_entry("hello", LogLevel::Info));
    app.on_log(make_entry("world", LogLevel::Warn));
    app.input_buffer = "hello".to_string();
    app.rebuild_matcher();
    assert_eq!(app.get_filtered_count(), 1);
}

#[test]
fn test_get_filtered_logs_returns_correct_entries() {
    let mut app = App::new();
    app.on_log(make_entry("error occurred", LogLevel::Error));
    app.on_log(make_entry("info message", LogLevel::Info));
    app.input_buffer = "error".to_string();
    app.rebuild_matcher();
    let filtered = app.get_filtered_logs();
    assert_eq!(filtered.len(), 1);
    assert_eq!(filtered[0].pretty, "error occurred");
}

#[test]
fn test_get_filtered_logs_case_insensitive() {
    let mut app = App::new();
    app.on_log(make_entry("Hello World", LogLevel::Info));
    app.on_log(make_entry("goodbye", LogLevel::Info));
    app.input_buffer = "HELLO".to_string();
    app.rebuild_matcher();
    assert_eq!(app.get_filtered_logs().len(), 1);
}

#[test]
fn test_cycle_log_level_sequence() {
    let mut app = App::new();
    assert!(app.min_log_level.is_none());
    app.cycle_log_level();
    assert_eq!(app.min_log_level, Some(LogLevel::Error));
    app.cycle_log_level();
    assert_eq!(app.min_log_level, Some(LogLevel::Warn));
    app.cycle_log_level();
    assert_eq!(app.min_log_level, Some(LogLevel::Info));
    app.cycle_log_level();
    assert_eq!(app.min_log_level, Some(LogLevel::Debug));
    app.cycle_log_level();
    assert!(app.min_log_level.is_none());
}

#[test]
fn test_level_filter_error_only() {
    let mut app = App::new();
    app.on_log(make_entry("err msg", LogLevel::Error));
    app.on_log(make_entry("warn msg", LogLevel::Warn));
    app.on_log(make_entry("info msg", LogLevel::Info));
    app.min_log_level = Some(LogLevel::Error);
    assert_eq!(app.get_filtered_count(), 1);
    assert_eq!(app.get_filtered_logs()[0].pretty, "err msg");
}

#[test]
fn test_level_filter_warn_and_above() {
    let mut app = App::new();
    app.on_log(make_entry("err", LogLevel::Error));
    app.on_log(make_entry("warn", LogLevel::Warn));
    app.on_log(make_entry("info", LogLevel::Info));
    app.on_log(make_entry("debug", LogLevel::Debug));
    app.min_log_level = Some(LogLevel::Warn);
    assert_eq!(app.get_filtered_count(), 2);
}

#[test]
fn test_level_filter_includes_unknown_only_when_none() {
    let mut app = App::new();
    app.on_log(make_entry("unknown", LogLevel::Unknown));
    app.on_log(make_entry("err", LogLevel::Error));
    assert_eq!(app.get_filtered_count(), 2);
    app.min_log_level = Some(LogLevel::Error);
    assert_eq!(app.get_filtered_count(), 1);
}

#[test]
fn test_level_and_text_filter_combined() {
    let mut app = App::new();
    app.on_log(make_entry("error: disk full", LogLevel::Error));
    app.on_log(make_entry("error: network", LogLevel::Error));
    app.on_log(make_entry("warn: disk usage", LogLevel::Warn));
    app.min_log_level = Some(LogLevel::Error);
    app.input_buffer = "disk".to_string();
    app.rebuild_matcher();
    assert_eq!(app.get_filtered_count(), 1);
    assert_eq!(app.get_filtered_logs()[0].pretty, "error: disk full");
}

#[test]
fn test_regex_filter_basic() {
    let mut app = App::new();
    app.on_log(make_entry("error 404", LogLevel::Error));
    app.on_log(make_entry("error 500", LogLevel::Error));
    app.on_log(make_entry("info ok", LogLevel::Info));
    app.use_regex = true;
    app.input_buffer = r"error \d+".to_string();
    app.rebuild_matcher();
    assert_eq!(app.get_filtered_count(), 2);
}

#[test]
fn test_regex_filter_case_insensitive() {
    let mut app = App::new();
    app.on_log(make_entry("ERROR happened", LogLevel::Error));
    app.on_log(make_entry("error too", LogLevel::Error));
    app.use_regex = true;
    app.input_buffer = "error".to_string();
    app.rebuild_matcher();
    assert_eq!(app.get_filtered_count(), 2);
}

#[test]
fn test_regex_invalid_matches_nothing() {
    let mut app = App::new();
    app.on_log(make_entry("hello", LogLevel::Info));
    app.use_regex = true;
    app.input_buffer = "[invalid".to_string();
    app.rebuild_matcher();
    assert_eq!(app.get_filtered_count(), 0);
}

#[test]
fn test_is_regex_invalid_true() {
    let mut app = App::new();
    app.use_regex = true;
    app.input_buffer = "[bad".to_string();
    app.rebuild_matcher();
    assert!(app.is_regex_invalid());
}

#[test]
fn test_is_regex_invalid_false_valid() {
    let mut app = App::new();
    app.use_regex = true;
    app.input_buffer = r"\d+".to_string();
    app.rebuild_matcher();
    assert!(!app.is_regex_invalid());
}

#[test]
fn test_is_regex_invalid_false_empty() {
    let mut app = App::new();
    app.use_regex = true;
    app.rebuild_matcher();
    assert!(!app.is_regex_invalid());
}

#[test]
fn test_is_regex_invalid_false_when_not_regex_mode() {
    let mut app = App::new();
    app.use_regex = false;
    app.input_buffer = "[bad".to_string();
    app.rebuild_matcher();
    assert!(!app.is_regex_invalid());
}

#[test]
fn test_regex_empty_buffer_shows_all() {
    let mut app = App::new();
    app.on_log(make_entry("a", LogLevel::Info));
    app.on_log(make_entry("b", LogLevel::Info));
    app.use_regex = true;
    app.rebuild_matcher();
    assert_eq!(app.get_filtered_count(), 2);
}

#[test]
fn test_regex_and_level_filter_combined() {
    let mut app = App::new();
    app.on_log(make_entry("error: code 42", LogLevel::Error));
    app.on_log(make_entry("warn: code 42", LogLevel::Warn));
    app.on_log(make_entry("info: code 99", LogLevel::Info));
    app.use_regex = true;
    app.input_buffer = r"code \d{2}".to_string();
    app.rebuild_matcher();
    app.min_log_level = Some(LogLevel::Warn);
    assert_eq!(app.get_filtered_count(), 2);
}

#[test]
fn test_clear_export_message() {
    let mut app = App::new();
    app.last_export_message = Some("test".to_string());
    app.clear_export_message();
    assert!(app.last_export_message.is_none());
}

#[test]
fn test_clear_export_message_when_already_none() {
    let mut app = App::new();
    app.clear_export_message();
    assert!(app.last_export_message.is_none());
}

#[test]
fn test_rebuild_matcher_updates_filtering() {
    let mut app = App::new();
    app.on_log(make_entry("alpha", LogLevel::Info));
    app.on_log(make_entry("beta", LogLevel::Info));
    assert_eq!(app.get_filtered_count(), 2);
    app.input_buffer = "alpha".to_string();
    assert_eq!(app.get_filtered_count(), 2);
    app.rebuild_matcher();
    assert_eq!(app.get_filtered_count(), 1);
}

#[test]
fn test_rebuild_matcher_clears_on_empty_buffer() {
    let mut app = App::new();
    app.on_log(make_entry("hello", LogLevel::Info));
    app.input_buffer = "hello".to_string();
    app.rebuild_matcher();
    assert_eq!(app.get_filtered_count(), 1);
    app.input_buffer.clear();
    app.rebuild_matcher();
    assert_eq!(app.get_filtered_count(), 1);
}

#[test]
fn test_rebuild_matcher_regex_mode() {
    let mut app = App::new();
    app.on_log(make_entry("error 42", LogLevel::Error));
    app.on_log(make_entry("info ok", LogLevel::Info));
    app.use_regex = true;
    app.input_buffer = r"\d+".to_string();
    app.rebuild_matcher();
    assert_eq!(app.get_filtered_count(), 1);
    assert_eq!(app.get_filtered_logs()[0].pretty, "error 42");
}

#[test]
fn test_rebuild_matcher_invalid_regex() {
    let mut app = App::new();
    app.on_log(make_entry("test", LogLevel::Info));
    app.use_regex = true;
    app.input_buffer = "[bad".to_string();
    app.rebuild_matcher();
    assert!(app.is_regex_invalid());
    assert_eq!(app.get_filtered_count(), 0);
}

#[test]
fn test_highlight_regex_returns_some_in_regex_mode() {
    let mut app = App::new();
    app.use_regex = true;
    app.input_buffer = r"\d+".to_string();
    app.rebuild_matcher();
    assert!(app.highlight_regex().is_some());
}

#[test]
fn test_highlight_regex_returns_none_in_substring_mode() {
    let mut app = App::new();
    app.input_buffer = "hello".to_string();
    app.rebuild_matcher();
    assert!(app.highlight_regex().is_none());
}

#[test]
fn test_highlight_regex_returns_none_for_invalid() {
    let mut app = App::new();
    app.use_regex = true;
    app.input_buffer = "[bad".to_string();
    app.rebuild_matcher();
    assert!(app.highlight_regex().is_none());
}

#[test]
fn test_highlight_regex_returns_none_when_empty() {
    let app = App::new();
    assert!(app.highlight_regex().is_none());
}

#[test]
fn highlight_regex_is_case_insensitive_pattern() {
    let mut app = App::new();
    app.use_regex = true;
    app.input_buffer = "abc".to_string();
    app.rebuild_matcher();
    let re = app.highlight_regex().unwrap();
    assert!(re.is_match("xxABCxx"));
    assert!(!re.is_match("ab c"));
}

// --- Export content and status message ---

#[test]
fn export_contents_of_filtered_entries() {
    let mut app = App::new();
    app.on_log(LogEntry {
        raw: "hello".to_string(),
        pretty: "hello".to_string(),
        level: LogLevel::Info,
        timestamp: None,
        source: Some("app.log".to_string()),
    });
    app.on_log(make_entry("world", LogLevel::Info));
    let out = app.export_contents();
    assert_eq!(out.count, 2);
    assert_eq!(out.text, "[app.log] hello\nworld");
}

#[test]
fn export_contents_with_filter() {
    let mut app = App::new();
    app.on_log(make_entry("keep this", LogLevel::Info));
    app.on_log(make_entry("drop this", LogLevel::Info));
    app.input_buffer = "keep".to_string();
    app.rebuild_matcher();
    let out = app.export_contents();
    assert_eq!(out.count, 1);
    assert_eq!(out.text, "keep this");
}

#[test]
fn export_contents_when_nothing_matches() {
    let mut app = App::new();
    app.input_buffer = "nomatch".to_string();
    app.rebuild_matcher();
    let out = app.export_contents();
    assert_eq!(out.count, 0);
    assert_eq!(out.text, "# No log entries matched the current filter.\n");
}

#[test]
fn record_export_messages() {
    let mut app = App::new();
    app.record_export(2, Ok("./x.log".to_string()));
    assert_eq!(app.last_export_message.as_deref(), Some("Exported 2 logs \u{2192} ./x.log"));
    app.record_export(1, Ok("./y.log".to_string()));
    assert_eq!(app.last_export_message.as_deref(), Some("Exported 1 log \u{2192} ./y.log"));
    app.record_export(0, Ok("z".to_string()));
    assert_eq!(app.last_export_message.as_deref(), Some("Exported 0 logs \u{2192} z"));
    app.record_export(3, Err("Not a directory".to_string()));
    assert_eq!(app.last_export_message.as_deref(), Some("Export failed: Not a directory"));
}

#[test]
fn export_file_name_format() {
    assert_eq!(
        smartlog::app::export_file_name("20240615T103045.123", 7),
        "smartlog_export_20240615T103045.123_7.log"
    );
    assert_eq!(smartlog::app::export_file_name("s", 0), "smartlog_export_s_0.log");
}

use smartlog::layout::{
    compute_raw_lines, compute_visual_lines, entry_visual_lines, log_area_height,
    metadata_prefix_display_width,
};
use smartlog::parser::{LogEntry, LogLevel};
use smartlog::timestamp::Timestamp;

fn now() -> Timestamp {
    let d = std::time::SystemTime::now()
        .duration_since(std::time::UNIX_EPOCH)
        .expect("clock after the epoch");
    Timestamp { secs: d.as_secs() as i64, nanos: d.subsec_nanos() }
}


fn entry(pretty: &str) -> LogEntry {
    LogEntry {
        raw: pretty.to_string(),
        pretty: pretty.to_string(),
        level: LogLevel::Info,
        timestamp: None,
        source: None,
    }
}

fn seconds_before(t: Timestamp, s: i64) -> Timestamp {
    Timestamp { secs: t.secs - s, nanos: t.nanos }
}

#[test]
fn layout_test_visual_lines_single_short_line() {
    assert_eq!(compute_visual_lines("hello", 80, 0), 1);
}

#[test]
fn layout_test_visual_lines_exact_width() {
    assert_eq!(compute_visual_lines("abcde", 5, 0), 1);
}

#[test]
fn layout_test_visual_lines_wraps_once() {
    assert_eq!(compute_visual_lines("abcdef", 5, 0), 2);
}

#[test]
fn layout_test_visual_lines_multiline_text() {
    assert_eq!(compute_visual_lines("aaa\nbbb\nccc", 80, 0), 3);
}

#[test]
fn layout_test_visual_lines_multiline_with_wrapping() {
    assert_eq!(compute_visual_lines("abcdef\ngh", 5, 0), 3);
}

#[test]
fn layout_test_visual_lines_empty_string() {
    assert_eq!(compute_visual_lines("", 80, 0), 1);
}

#[test]
fn layout_test_visual_lines_zero_width() {
    assert_eq!(compute_visual_lines("abc\ndef", 0, 0), 2);
}

#[test]
fn layout_test_visual_lines_pretty_json() {
    let json = "{\n  \"level\": \"ERROR\",\n  \"msg\": \"fail\"\n}";
    assert_eq!(compute_visual_lines(json, 40, 0), 4);
}

#[test]
fn layout_test_visual_lines_cjk_double_width() {
    assert_eq!(compute_visual_lines("你好世界呀", 10, 0), 1);
    assert_eq!(compute_visual_lines("你好世界呀", 6, 0), 2);
}

#[test]
fn layout_test_visual_lines_mixed_ascii_cjk() {
    assert_eq!(compute_visual_lines("hi你好", 6, 0), 1);
    assert_eq!(compute_visual_lines("hi你好", 5, 0), 2);
}

#[test]
fn layout_test_visual_lines_with_prefix_causes_wrap() {
    assert_eq!(compute_visual_lines("abcde", 5, 0), 1);
    assert_eq!(compute_visual_lines("abcde", 5, 3), 2);
}

#[test]
fn layout_test_visual_lines_prefix_only_affects_first_line() {
    assert_eq!(compute_visual_lines("abcde\nfgh", 5, 3), 3);
    assert_eq!(compute_visual_lines("abcde\nfgh", 5, 0), 2);
}

#[test]
fn layout_test_metadata_prefix_display_width_no_metadata() {
    let e = entry("test");
    assert_eq!(metadata_prefix_display_width(&e, false, now()), 0);
}

#[test]
fn layout_test_metadata_prefix_display_width_source_only() {
    let mut e = entry("test");
    e.source = Some("app.log".to_string());
    assert_eq!(metadata_prefix_display_width(&e, false, now()), 10);
}

#[test]
fn layout_test_metadata_prefix_display_width_timestamp_only() {
    let mut e = entry("test");
    let n = now();
    e.timestamp = Some(seconds_before(n, 5));
    let w = metadata_prefix_display_width(&e, true, n);
    assert!(w > 0);
    // "[5s ago] "
    assert_eq!(w, 9);
}

#[test]
fn layout_test_metadata_prefix_display_width_timestamp_disabled() {
    let mut e = entry("test");
    let n = now();
    e.timestamp = Some(n);
    assert_eq!(metadata_prefix_display_width(&e, false, n), 0);
}

#[test]
fn layout_test_raw_lines_single() {
    assert_eq!(compute_raw_lines("hello"), 1);
}

#[test]
fn layout_test_raw_lines_multiline() {
    assert_eq!(compute_raw_lines("a\nb\nc"), 3);
}

#[test]
fn layout_test_raw_lines_empty() {
    assert_eq!(compute_raw_lines(""), 1);
}

#[test]
fn test_entry_visual_lines_wrap_on() {
    let e = entry("abcdefghij");
    assert_eq!(entry_visual_lines(&e, 5, true, false, now()), 2);
}

#[test]
fn test_entry_visual_lines_wrap_off() {
    let e = entry("abcdefghij");
    assert_eq!(entry_visual_lines(&e, 5, false, false, now()), 1);
}

#[test]
fn test_entry_visual_lines_with_source_prefix() {
    let mut e = entry("abcdefghij");
    e.source = Some("app.log".to_string());
    assert_eq!(entry_visual_lines(&e, 20, true, false, now()), 1);
    assert_eq!(entry_visual_lines(&e, 15, true, false, now()), 2);
}

#[test]
fn test_entry_visual_lines_multiline_wrap_off() {
    let e = entry("a\nb\nc");
    assert_eq!(entry_visual_lines(&e, 80, false, false, now()), 3);
}

#[test]
fn test_entry_visual_lines_multiline_wrap_on() {
    let e = entry("a\nb\nc");
    assert_eq!(entry_visual_lines(&e, 80, true, false, now()), 3);
}

#[test]
fn raw_lines_ignore_final_newline_and_carriage_returns() {
    assert_eq!(compute_raw_lines("a\n"), 1);
    assert_eq!(compute_raw_lines("a\r\nb\r\n"), 2);
    assert_eq!(compute_raw_lines("\n"), 1);
    assert_eq!(compute_raw_lines("a\n\nb"), 3);
}

#[test]
fn visual_lines_count_empty_lines_and_wide_chars() {
    assert_eq!(compute_visual_lines("a\n\nb", 10, 0), 3);
    assert_eq!(compute_visual_lines("", 10, 25), 1);
    assert_eq!(compute_visual_lines("a", 10, 25), 3);
    assert_eq!(compute_visual_lines("abcdefghijk", 5, 0), 3);
}


#[test]
fn metadata_width_with_source_and_time() {
    let n = Timestamp { secs: 10_000, nanos: 0 };
    let mut e = entry("x");
    e.source = Some("db".to_string());
    e.timestamp = Some(Timestamp { secs: 10_000 - 120, nanos: 0 });
    // "[db] " + "[2m ago] "
    assert_eq!(metadata_prefix_display_width(&e, true, n), 5 + 9);
    assert_eq!(entry_visual_lines(&e, 5, true, true, n), 3);
}

#[test]
fn log_area_leaves_room_for_borders_and_input() {
    assert_eq!(log_area_height(25), 20);
    assert_eq!(log_area_height(5), 0);
    assert_eq!(log_area_height(3), 0);
}

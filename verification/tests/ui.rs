use smartlog::app::{App, InputMode};
use smartlog::layout::{compute_raw_lines, compute_visual_lines, metadata_prefix_display_width};
use smartlog::parser::{LogEntry, LogLevel};
use smartlog::theme::{Color, Theme};
use smartlog::timestamp::Timestamp;
use smartlog::view::{
    build_status_title, compute_auto_scroll_entry, input_bar_color, prepend_metadata, visible_log_lines,
    SpanStyle, StyledLine, StyledSpan,
};

fn now() -> Timestamp {
    let d = std::time::SystemTime::now()
        .duration_since(std::time::UNIX_EPOCH)
        .expect("clock after the epoch");
    Timestamp { secs: d.as_secs() as i64, nanos: d.subsec_nanos() }
}


fn entry(pretty: &str) -> LogEntry {
    LogEntry {
        raw: pretty.to_string(),
        pretty: pretty.to_string(),
        level: LogLevel::Info,
        timestamp: None,
        source: None,
    }
}

fn raw_line(text: &str) -> StyledLine {
    StyledLine {
        spans: vec![StyledSpan {
            content: text.to_string(),
            style: SpanStyle { fg: None, bg: None, bold: false },
        }],
    }
}

fn one_second_before(t: Timestamp) -> Timestamp {
    Timestamp { secs: t.secs - 1, nanos: t.nanos }
}

#[test]
fn ui_test_visual_lines_single_short_line() {
    assert_eq!(compute_visual_lines("hello", 80, 0), 1);
}

#[test]
fn ui_test_visual_lines_exact_width() {
    assert_eq!(compute_visual_lines("abcde", 5, 0), 1);
}

#[test]
fn ui_test_visual_lines_wraps_once() {
    assert_eq!(compute_visual_lines("abcdef", 5, 0), 2);
}

#[test]
fn ui_test_visual_lines_multiline_text() {
    assert_eq!(compute_visual_lines("aaa\nbbb\nccc", 80, 0), 3);
}

#[test]
fn ui_test_visual_lines_multiline_with_wrapping() {
    assert_eq!(compute_visual_lines("abcdef\ngh", 5, 0), 3);
}

#[test]
fn ui_test_visual_lines_empty_string() {
    assert_eq!(compute_visual_lines("", 80, 0), 1);
}

#[test]
fn ui_test_visual_lines_zero_width() {
    assert_eq!(compute_visual_lines("abc\ndef", 0, 0), 2);
}

#[test]
fn ui_test_visual_lines_pretty_json() {
    let json = "{\n  \"level\": \"ERROR\",\n  \"msg\": \"fail\"\n}";
    assert_eq!(compute_visual_lines(json, 40, 0), 4);
}

#[test]
fn ui_test_visual_lines_cjk_double_width() {
    assert_eq!(compute_visual_lines("你好世界呀", 10, 0), 1);
    assert_eq!(compute_visual_lines("你好世界呀", 6, 0), 2);
}

#[test]
fn ui_test_visual_lines_mixed_ascii_cjk() {
    assert_eq!(compute_visual_lines("hi你好", 6, 0), 1);
    assert_eq!(compute_visual_lines("hi你好", 5, 0), 2);
}

#[test]
fn ui_test_visual_lines_with_prefix_causes_wrap() {
    assert_eq!(compute_visual_lines("abcde", 5, 0), 1);
    assert_eq!(compute_visual_lines("abcde", 5, 3), 2);
}

#[test]
fn ui_test_visual_lines_prefix_only_affects_first_line() {
    assert_eq!(compute_visual_lines("abcde\nfgh", 5, 3), 3);
    assert_eq!(compute_visual_lines("abcde\nfgh", 5, 0), 2);
}

#[test]
fn ui_test_metadata_prefix_display_width_no_metadata() {
    let e = entry("test");
    assert_eq!(metadata_prefix_display_width(&e, false, now()), 0);
}

#[test]
fn ui_test_metadata_prefix_display_width_source_only() {
    let mut e = entry("test");
    e.source = Some("app.log".to_string());
    assert_eq!(metadata_prefix_display_width(&e, false, now()), 10);
}

#[test]
fn ui_test_metadata_prefix_display_width_timestamp_only() {
    let mut e = entry("test");
    let n = now();
    e.timestamp = Some(Timestamp { secs: n.secs - 5, nanos: n.nanos });
    let w = metadata_prefix_display_width(&e, true, n);
    assert!(w > 0);
}

#[test]
fn ui_test_metadata_prefix_display_width_timestamp_disabled() {
    let mut e = entry("test");
    let n = now();
    e.timestamp = Some(n);
    assert_eq!(metadata_prefix_display_width(&e, false, n), 0);
}

#[test]
fn test_auto_scroll_with_metadata_prefix() {
    let mut e1 = entry("abcdefghij");
    e1.source = Some("app.log".to_string());
    let mut e2 = entry("abcdefghij");
    e2.source = Some("app.log".to_string());
    let entries: Vec<&LogEntry> = vec![&e1, &e2];
    assert_eq!(compute_auto_scroll_entry(&entries, 2, 20, true, false, now()), 0);
    assert_eq!(compute_auto_scroll_entry(&entries, 2, 15, true, false, now()), 1);
}

#[test]
fn ui_test_raw_lines_single() {
    assert_eq!(compute_raw_lines("hello"), 1);
}

#[test]
fn ui_test_raw_lines_multiline() {
    assert_eq!(compute_raw_lines("a\nb\nc"), 3);
}

#[test]
fn ui_test_raw_lines_empty() {
    assert_eq!(compute_raw_lines(""), 1);
}

#[test]
fn test_auto_scroll_empty_entries() {
    let entries: Vec<&LogEntry> = vec![];
    assert_eq!(compute_auto_scroll_entry(&entries, 10, 80, true, false, now()), 0);
}

#[test]
fn test_auto_scroll_all_fit() {
    let e1 = entry("line1");
    let e2 = entry("line2");
    let entries: Vec<&LogEntry> = vec![&e1, &e2];
    assert_eq!(compute_auto_scroll_entry(&entries, 10, 80, true, false, now()), 0);
}

#[test]
fn test_auto_scroll_not_all_fit() {
    let e1 = entry("line1");
    let e2 = entry("line2");
    let e3 = entry("line3");
    let e4 = entry("line4");
    let entries: Vec<&LogEntry> = vec![&e1, &e2, &e3, &e4];
    assert_eq!(compute_auto_scroll_entry(&entries, 2, 80, true, false, now()), 2);
}

#[test]
fn test_auto_scroll_multiline_entries() {
    let json = "{\n  \"level\": \"ERROR\",\n  \"msg\": \"fail\"\n}";
    let e1 = entry(json);
    let e2 = entry(json);
    let e3 = entry(json);
    let entries: Vec<&LogEntry> = vec![&e1, &e2, &e3];
    assert_eq!(compute_auto_scroll_entry(&entries, 5, 80, true, false, now()), 2);
}

#[test]
fn test_auto_scroll_zero_viewport_height() {
    let e1 = entry("line1");
    let entries: Vec<&LogEntry> = vec![&e1];
    assert_eq!(compute_auto_scroll_entry(&entries, 0, 80, true, false, now()), 0);
}

#[test]
fn test_auto_scroll_single_oversized_entry() {
    let big = entry("a\nb\nc\nd\ne\nf\ng\nh\ni\nj\nk\nl\nm\nn\no\np\nq\nr\ns\nt");
    let entries: Vec<&LogEntry> = vec![&big];
    assert_eq!(compute_auto_scroll_entry(&entries, 3, 80, true, false, now()), 0);
}

#[test]
fn test_auto_scroll_last_entry_exceeds_viewport() {
    let e1 = entry("short");
    let e2 = entry("short");
    let big = entry("a\nb\nc\nd\ne\nf\ng\nh\ni\nj");
    let entries: Vec<&LogEntry> = vec![&e1, &e2, &big];
    assert_eq!(compute_auto_scroll_entry(&entries, 3, 80, true, false, now()), 2);
}

#[test]
fn test_auto_scroll_no_wrap_ignores_width() {
    let e1 = entry("abcdefghij");
    let e2 = entry("klmnopqrst");
    let entries: Vec<&LogEntry> = vec![&e1, &e2];
    assert_eq!(compute_auto_scroll_entry(&entries, 2, 5, true, false, now()), 1);
    assert_eq!(compute_auto_scroll_entry(&entries, 2, 5, false, false, now()), 0);
}

#[test]
fn test_auto_scroll_no_wrap_multiline_entry() {
    let e1 = entry("a\nb\nc");
    let e2 = entry("d");
    let entries: Vec<&LogEntry> = vec![&e1, &e2];
    assert_eq!(compute_auto_scroll_entry(&entries, 3, 80, false, false, now()), 1);
}

#[test]
fn test_status_title_default() {
    let app = App::new();
    let title = build_status_title(&app, 0, 0);
    assert!(title.contains("FOLLOWING"));
    assert!(title.contains("WRAP"));
    assert!(title.contains("ALL"));
    assert!(title.contains("0 logs"));
    assert!(title.contains("dark"));
}

#[test]
fn test_status_title_with_source_label() {
    let mut app = App::new();
    app.source_label = "file: app.log".to_string();
    let title = build_status_title(&app, 5, 5);
    assert!(title.contains("file: app.log"));
}

#[test]
fn test_status_title_empty_source_label_omitted() {
    let app = App::new();
    let title = build_status_title(&app, 0, 0);
    assert!(!title.contains("| |"));
}

#[test]
fn test_status_title_filtered_count() {
    let app = App::new();
    let title = build_status_title(&app, 3, 10);
    assert!(title.contains("3/10 logs"));
}

#[test]
fn test_status_title_export_message_overrides() {
    let mut app = App::new();
    app.last_export_message = Some("Exported 5 logs → test.log".to_string());
    let title = build_status_title(&app, 5, 10);
    assert!(title.contains("Exported 5 logs"));
    assert!(!title.contains("FOLLOWING"));
}

#[test]
fn test_status_title_shows_time_when_enabled() {
    let mut app = App::new();
    app.show_timestamps = true;
    let title = build_status_title(&app, 0, 0);
    assert!(title.contains("REL TIME"));
}

#[test]
fn test_status_title_hides_time_when_disabled() {
    let app = App::new();
    let title = build_status_title(&app, 0, 0);
    assert!(!title.contains("REL TIME"));
}

#[test]
fn test_status_title_shows_theme_name() {
    let mut app = App::new();
    app.theme = Theme::solarized();
    let title = build_status_title(&app, 0, 0);
    assert!(title.contains("solarized"));
}

#[test]
fn status_title_exact_text() {
    let mut app = App::new();
    assert_eq!(build_status_title(&app, 4, 4), " / filter | FOLLOWING | WRAP | ALL | 4 logs | dark ");
    app.auto_scroll = false;
    app.line_wrap = false;
    app.min_log_level = Some(LogLevel::Warn);
    app.use_regex = true;
    app.input_buffer = "[bad".to_string();
    app.rebuild_matcher();
    app.source_label = "stdin".to_string();
    assert_eq!(
        build_status_title(&app, 1, 7),
        " / filter | PAUSED | NOWRAP | \u{2265}WARN | 1/7 logs | INVALID REGEX | dark | stdin "
    );
    app.last_export_message = Some("done".to_string());
    assert_eq!(build_status_title(&app, 1, 7), " done ");
}

#[test]
fn test_prepend_metadata_no_source_no_timestamp() {
    let app = App::new();
    let e = entry("test");
    let mut line = raw_line("test");
    prepend_metadata(&mut line, &e, app.show_timestamps, &app.theme, now());
    assert_eq!(line.spans.len(), 1);
}

#[test]
fn test_prepend_metadata_with_source() {
    let app = App::new();
    let mut e = entry("test");
    e.source = Some("app.log".to_string());
    let mut line = raw_line("test");
    prepend_metadata(&mut line, &e, app.show_timestamps, &app.theme, now());
    assert_eq!(line.spans.len(), 2);
    assert!(line.spans[0].content.contains("app.log"));
    assert_eq!(line.spans[0].style.fg, Some(Color::Magenta));
}

#[test]
fn test_prepend_metadata_with_timestamp() {
    let mut app = App::new();
    app.show_timestamps = true;
    let mut e = entry("test");
    let n = now();
    e.timestamp = Some(one_second_before(n));
    let mut line = raw_line("test");
    prepend_metadata(&mut line, &e, app.show_timestamps, &app.theme, n);
    assert_eq!(line.spans.len(), 2);
    assert!(line.spans[0].content.contains("ago"));
    assert_eq!(line.spans[0].content, "[1s ago] ");
}

#[test]
fn test_prepend_metadata_timestamp_and_source() {
    let mut app = App::new();
    app.show_timestamps = true;
    let mut e = entry("test");
    let n = now();
    e.timestamp = Some(one_second_before(n));
    e.source = Some("app.log".to_string());
    let mut line = raw_line("test");
    prepend_metadata(&mut line, &e, app.show_timestamps, &app.theme, n);
    assert_eq!(line.spans.len(), 3);
    assert!(line.spans[0].content.contains("ago"));
    assert!(line.spans[1].content.contains("app.log"));
    assert_eq!(line.spans[2].content, "test");
}

#[test]
fn test_prepend_metadata_timestamp_disabled_no_prefix() {
    let app = App::new();
    let mut e = entry("test");
    e.timestamp = Some(now());
    let mut line = raw_line("test");
    prepend_metadata(&mut line, &e, app.show_timestamps, &app.theme, now());
    assert_eq!(line.spans.len(), 1);
}

#[test]
fn visible_lines_follow_the_end() {
    let mut app = App::new();
    for i in 0..10 {
        app.on_log(entry(&format!("line {i}")));
    }
    let lines = visible_log_lines(&app, 3, 80, now());
    assert_eq!(lines.len(), 3);
    assert_eq!(lines[0].spans[0].content, "line 7");
    assert_eq!(lines[2].spans[0].content, "line 9");
}

#[test]
fn visible_lines_start_at_scroll_when_paused() {
    let mut app = App::new();
    for i in 0..10 {
        app.on_log(entry(&format!("line {i}")));
    }
    app.auto_scroll = false;
    app.scroll = 4;
    let lines = visible_log_lines(&app, 3, 80, now());
    assert_eq!(lines.len(), 6);
    assert_eq!(lines[0].spans[0].content, "line 4");
}

#[test]
fn visible_lines_highlight_the_filter() {
    let mut app = App::new();
    app.on_log(entry("alpha beta"));
    app.on_log(entry("gamma"));
    app.input_buffer = "beta".to_string();
    app.rebuild_matcher();
    let lines = visible_log_lines(&app, 5, 80, now());
    assert_eq!(lines.len(), 1);
    let texts: Vec<&str> = lines[0].spans.iter().map(|s| s.content.as_str()).collect();
    assert_eq!(texts, vec!["alpha ", "beta"]);
    assert_eq!(lines[0].spans[1].style.bg, Some(Color::Cyan));
}

#[test]
fn input_bar_color_while_editing() {
    let mut app = App::new();
    assert_eq!(input_bar_color(&app), None);
    app.input_mode = InputMode::Editing;
    assert_eq!(input_bar_color(&app), Some(Color::Yellow));
    app.theme = Theme::dracula();
    assert_eq!(input_bar_color(&app), Some(Color::LightMagenta));
}

use smartlog::app::App;
use smartlog::events::{
    handle_log_message, handle_terminal_event, TerminalEvent, TerminalOutcome,
    MAX_CONSECUTIVE_EVENT_ERRORS,
};
use smartlog::inputs::{KeyCode, KeyEvent, KeyEventKind};
use smartlog::parser::{parse_log, LogEntry};
use smartlog::timestamp::Timestamp;

fn no_epoch(_n: &serde_json::Number) -> Option<Timestamp> {
    None
}

fn parse(line: &str) -> LogEntry {
    parse_log(line.to_string(), &no_epoch)
}

fn press_key(code: KeyCode) -> TerminalEvent {
    TerminalEvent::Key(KeyEvent { code, kind: KeyEventKind::Press })
}

fn outcome(errors: u32) -> TerminalOutcome {
    TerminalOutcome { consecutive_errors: errors, export_requested: false }
}

#[test]
fn test_handle_log_message_adds_entry() {
    let mut app = App::new();
    let open = handle_log_message(&mut app, Some("hello".to_string()), &no_epoch);
    assert!(open);
    assert_eq!(app.logs.len(), 1);
    assert_eq!(app.logs[0].raw, "hello");
}

#[test]
fn test_handle_log_message_none_closes_channel() {
    let mut app = App::new();
    let open = handle_log_message(&mut app, None, &no_epoch);
    assert!(!open);
    assert!(!app.should_quit);
}

#[test]
fn test_handle_terminal_event_key_q_quits() {
    let mut app = App::new();
    let out = handle_terminal_event(&mut app, press_key(KeyCode::Char('q')), 0);
    assert_eq!(out.consecutive_errors, 0);
    assert!(app.should_quit);
}

#[test]
fn test_handle_terminal_event_key_resets_error_count() {
    let mut app = App::new();
    app.on_log(parse("test"));
    let out = handle_terminal_event(&mut app, press_key(KeyCode::Down), 10);
    assert_eq!(out.consecutive_errors, 0);
}

#[test]
fn test_handle_terminal_event_mouse_scroll_up() {
    let mut app = App::new();
    app.on_log(parse("a"));
    app.on_log(parse("b"));
    app.scroll = 1;
    let out = handle_terminal_event(&mut app, TerminalEvent::ScrollUp, 0);
    assert_eq!(out.consecutive_errors, 0);
    assert_eq!(app.scroll, 0);
}

#[test]
fn test_handle_terminal_event_mouse_scroll_down() {
    let mut app = App::new();
    app.on_log(parse("a"));
    app.on_log(parse("b"));
    app.auto_scroll = false;
    app.scroll = 0;
    let out = handle_terminal_event(&mut app, TerminalEvent::ScrollDown, 0);
    assert_eq!(out.consecutive_errors, 0);
    assert_eq!(app.scroll, 1);
}

#[test]
fn test_handle_terminal_event_mouse_other_ignored() {
    let mut app = App::new();
    let out = handle_terminal_event(&mut app, TerminalEvent::OtherMouse, 5);
    assert_eq!(out.consecutive_errors, 0);
    assert!(!app.should_quit);
}

#[test]
fn test_handle_terminal_event_other_event_resets_errors() {
    let mut app = App::new();
    let out = handle_terminal_event(&mut app, TerminalEvent::Other, 15);
    assert_eq!(out.consecutive_errors, 0);
}

#[test]
fn test_handle_terminal_event_error_increments() {
    let mut app = App::new();
    let out = handle_terminal_event(&mut app, TerminalEvent::Error, 0);
    assert_eq!(out.consecutive_errors, 1);
    assert!(!app.should_quit);
}

#[test]
fn test_handle_terminal_event_error_threshold_quits() {
    let mut app = App::new();
    let out = handle_terminal_event(&mut app, TerminalEvent::Error, 49);
    assert_eq!(out.consecutive_errors, 50);
    assert!(app.should_quit);
}

#[test]
fn test_handle_terminal_event_none_quits() {
    let mut app = App::new();
    let out = handle_terminal_event(&mut app, TerminalEvent::Closed, 0);
    assert_eq!(out.consecutive_errors, 0);
    assert!(app.should_quit);
}

#[test]
fn closed_stream_keeps_the_error_count() {
    let mut app = App::new();
    assert_eq!(handle_terminal_event(&mut app, TerminalEvent::Closed, 7), outcome(7));
}

#[test]
fn error_threshold_is_fifty() {
    assert_eq!(MAX_CONSECUTIVE_EVENT_ERRORS, 50);
    let mut app = App::new();
    assert_eq!(handle_terminal_event(&mut app, TerminalEvent::Error, 48), outcome(49));
    assert!(!app.should_quit);
}

#[test]
fn export_key_is_reported() {
    let mut app = App::new();
    let out = handle_terminal_event(&mut app, press_key(KeyCode::Char('e')), 3);
    assert_eq!(out, TerminalOutcome { consecutive_errors: 0, export_requested: true });
}

#[test]
fn log_messages_parse_json_lines() {
    let mut app = App::new();
    handle_log_message(&mut app, Some(r#"{"level":"warn","msg":"x"}"#.to_string()), &no_epoch);
    assert_eq!(app.logs[0].level, smartlog::parser::LogLevel::Warn);
    assert_eq!(app.logs_processed, 1);
}

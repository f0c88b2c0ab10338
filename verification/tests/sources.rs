use smartlog::config::MAX_LOG_LINE_SIZE;
use smartlog::sources::{
    demo_lines, notice_text, plan_sources, prepare_line, tail_step, truncate_line, SourceNotice, SourcePlan, TailStep,
    DEMO_LINE_COUNT, TRUNCATION_SUFFIX, TRUNCATION_SUFFIX_LEN,
};

#[test]
fn test_truncate_line_short_unchanged() {
    let mut line = "short line".to_string();
    truncate_line(&mut line);
    assert_eq!(line, "short line");
}

#[test]
fn test_truncate_line_exact_limit_unchanged() {
    let mut line = "a".repeat(MAX_LOG_LINE_SIZE);
    truncate_line(&mut line);
    assert_eq!(line.len(), MAX_LOG_LINE_SIZE);
}

#[test]
fn test_truncate_line_over_limit() {
    let mut line = "a".repeat(MAX_LOG_LINE_SIZE + 100);
    truncate_line(&mut line);
    assert!(line.ends_with(TRUNCATION_SUFFIX));
    assert!(line.len() <= MAX_LOG_LINE_SIZE);
}

#[test]
fn test_truncate_line_respects_utf8_boundary() {
    let repeat_count = MAX_LOG_LINE_SIZE / 3 + 1;
    let mut line = "\u{4e16}".repeat(repeat_count);
    truncate_line(&mut line);
    assert!(line.ends_with(TRUNCATION_SUFFIX));
    assert!(line.len() <= MAX_LOG_LINE_SIZE);
    let _ = line.as_str();
}

#[test]
fn test_truncate_line_empty() {
    let mut line = String::new();
    truncate_line(&mut line);
    assert!(line.is_empty());
}

#[test]
fn truncation_keeps_the_longest_fitting_prefix() {
    let mut line = "a".repeat(MAX_LOG_LINE_SIZE + 1);
    truncate_line(&mut line);
    assert_eq!(line.len(), MAX_LOG_LINE_SIZE);
    assert_eq!(TRUNCATION_SUFFIX.len(), TRUNCATION_SUFFIX_LEN);
    assert!(line.starts_with(&"a".repeat(MAX_LOG_LINE_SIZE - TRUNCATION_SUFFIX_LEN)));
    let mut again = line.clone();
    truncate_line(&mut again);
    assert_eq!(again, line);
}

#[test]
fn truncation_of_multibyte_text_cuts_whole_characters() {
    let mut line = "\u{4e16}".repeat(MAX_LOG_LINE_SIZE / 3 + 1);
    truncate_line(&mut line);
    let kept = (MAX_LOG_LINE_SIZE - TRUNCATION_SUFFIX_LEN) / 3;
    assert_eq!(line, format!("{}{}", "\u{4e16}".repeat(kept), TRUNCATION_SUFFIX));
}

#[test]
fn prepare_line_strips_line_endings() {
    assert_eq!(prepare_line("hello\n".to_string()), "hello");
    assert_eq!(prepare_line("hello\r\n".to_string()), "hello");
    assert_eq!(prepare_line("hello\n\r\n".to_string()), "hello");
    assert_eq!(prepare_line("a\nb".to_string()), "a\nb");
    assert_eq!(prepare_line("\n".to_string()), "");
    let long = format!("{}\n", "b".repeat(MAX_LOG_LINE_SIZE + 5));
    let prepared = prepare_line(long);
    assert!(prepared.ends_with(TRUNCATION_SUFFIX));
    assert!(prepared.len() <= MAX_LOG_LINE_SIZE);
}

#[test]
fn notices_read_as_the_viewer_shows_them() {
    assert_eq!(
        notice_text(SourceNotice::Truncated, "app.log", ""),
        "\u{26a0}\u{fe0f}  File truncated or rotated: app.log"
    );
    assert_eq!(
        notice_text(SourceNotice::Unavailable, "app.log", "gone"),
        "\u{26a0}\u{fe0f}  File unavailable: app.log (gone)"
    );
    assert_eq!(
        notice_text(SourceNotice::Waiting, "x.log", "not found"),
        "\u{26a0}\u{fe0f}  Waiting for file to exist: x.log (not found)"
    );
    assert_eq!(notice_text(SourceNotice::Found, "x.log", ""), "\u{2713} File found: x.log");
    assert_eq!(
        notice_text(SourceNotice::ReadError, "", "bad utf8"),
        "\u{26a0}\u{fe0f}  Error reading line: bad utf8"
    );
    assert_eq!(
        notice_text(SourceNotice::StdinError, "", "closed"),
        "\u{26a0}\u{fe0f}  Error reading from stdin: closed"
    );
    assert_eq!(
        notice_text(SourceNotice::EndOfInput, "", ""),
        "\u{2139}\u{fe0f}  End of input stream reached"
    );
}

#[test]
fn tail_step_reads_new_bytes() {
    assert_eq!(
        tail_step(10, Some(25)),
        TailStep { notice: None, close_reader: false, offset: 10, read: true }
    );
    assert_eq!(
        tail_step(25, Some(25)),
        TailStep { notice: None, close_reader: false, offset: 25, read: false }
    );
}

#[test]
fn tail_step_restarts_after_rotation() {
    assert_eq!(
        tail_step(100, Some(40)),
        TailStep {
            notice: Some(SourceNotice::Truncated),
            close_reader: true,
            offset: 0,
            read: true
        }
    );
    assert_eq!(
        tail_step(100, Some(0)),
        TailStep {
            notice: Some(SourceNotice::Truncated),
            close_reader: true,
            offset: 0,
            read: false
        }
    );
}

#[test]
fn tail_step_when_file_is_gone() {
    assert_eq!(
        tail_step(100, None),
        TailStep {
            notice: Some(SourceNotice::Unavailable),
            close_reader: true,
            offset: 0,
            read: false
        }
    );
}

#[test]
fn demo_lines_are_the_sample_logs() {
    let lines = demo_lines();
    assert_eq!(lines.len(), DEMO_LINE_COUNT);
    assert_eq!(lines[2], "Standard text log line here (nginx style perhaps)");
    assert!(lines[0].contains("Service started"));
    assert!(lines[3].contains("DB Connection Failed"));
}

#[test]
fn source_priority_files_then_stdin_then_demo() {
    assert_eq!(plan_sources(2, true), SourcePlan::Files);
    assert_eq!(plan_sources(1, false), SourcePlan::Files);
    assert_eq!(plan_sources(0, false), SourcePlan::Stdin);
    assert_eq!(plan_sources(0, true), SourcePlan::Demo);
}

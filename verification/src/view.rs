//! What the screen shows, computed from the application state: styled log
//! lines with search highlights and metadata prefixes, the auto-scroll
//! position and the status bar title.

use vstd::prelude::*;

use crate::app::{sat_dec, App, AppView, InputMode};
use crate::layout::{entry_rows, entry_visual_lines};
use crate::parser::{label_of, LogEntry, LogLevel};
use crate::text::{
    chars_of, decimal, lowercase, matches_at, occurs_at, push_decimal, push_str_chars,
    string_of_range, to_lowercase,
};
use crate::theme::{Color, Theme};
use crate::timestamp::{elapsed_secs, format_relative_time_at, relative_label, Timestamp};

verus! {

// ---------------------------------------------------------------------------
// Styled text
// ---------------------------------------------------------------------------

/// The style of a piece of text.
#[derive(Clone, Copy, Debug, PartialEq, Eq, Structural)]
pub struct SpanStyle {
    pub fg: Option<Color>,
    pub bg: Option<Color>,
    pub bold: bool,
}

/// A piece of text with one style.
#[derive(Clone, Debug)]
pub struct StyledSpan {
    pub content: String,
    pub style: SpanStyle,
}

/// A line of styled pieces of text.
#[derive(Clone, Debug)]
pub struct StyledLine {
    pub spans: Vec<StyledSpan>,
}

/// The pieces of a line as text and style.
pub open spec fn spans_view(spans: Seq<StyledSpan>) -> Seq<(Seq<char>, SpanStyle)> {
    spans.map_values(|s: StyledSpan| (s.content@, s.style))
}

impl StyledLine {
    pub open spec fn view_spans(&self) -> Seq<(Seq<char>, SpanStyle)> {
        spans_view(self.spans@)
    }
}

/// A plain style with only a foreground color.
pub open spec fn fg_style(c: Color) -> SpanStyle {
    SpanStyle { fg: Some(c), bg: None, bold: false }
}

/// The color of a level in a theme.
pub open spec fn level_color(theme: Theme, level: LogLevel) -> Color {
    match level {
        LogLevel::Error => theme.error,
        LogLevel::Warn => theme.warn,
        LogLevel::Info => theme.info,
        LogLevel::Debug => theme.debug,
        LogLevel::Unknown => theme.unknown,
    }
}

/// The style of search matches in a theme: highlight colors, bold.
pub open spec fn highlight_style(theme: Theme) -> SpanStyle {
    SpanStyle { fg: Some(theme.highlight_fg), bg: Some(theme.highlight_bg), bold: true }
}

// ---------------------------------------------------------------------------
// Highlighting
// ---------------------------------------------------------------------------

/// The first position at or after `i` where `q` occurs in `lower`, or -1.
pub open spec fn next_match(lower: Seq<char>, q: Seq<char>, i: int) -> int
    decreases lower.len() + 1 - i,
{
    if i < 0 || i + q.len() > lower.len() {
        -1
    } else if occurs_at(lower, q, i) {
        i
    } else {
        next_match(lower, q, i + 1)
    }
}

/// `next_match` is -1 or a position at or after `i` where `q` occurs, with
/// no occurrence in between.
pub proof fn lemma_next_match(lower: Seq<char>, q: Seq<char>, i: int)
    requires
        i >= 0,
    ensures
        next_match(lower, q, i) == -1 || (i <= next_match(lower, q, i) && occurs_at(
            lower,
            q,
            next_match(lower, q, i),
        )),
        forall|k: int|
            i <= k && (next_match(lower, q, i) == -1 || k < next_match(lower, q, i)) ==> !occurs_at(
                lower,
                q,
                k,
            ),
    decreases lower.len() + 1 - i,
{
    if i + q.len() > lower.len() {
    } else if occurs_at(lower, q, i) {
    } else {
        lemma_next_match(lower, q, i + 1);
    }
}

/// Splits `content[start..]` at the case-insensitive occurrences of the query,
/// taken from left to right without overlap: each piece is marked `true` when
/// it is an occurrence. `lower` is the lower-cased content (of the same length)
/// and `q` the lower-cased query.
pub open spec fn segments(content: Seq<char>, lower: Seq<char>, q: Seq<char>, start: int) -> Seq<
    (Seq<char>, bool),
>
    decreases lower.len() + 1 - start,
{
    if q.len() == 0 || start < 0 || start >= content.len() {
        if 0 <= start < content.len() {
            seq![(content.subrange(start, content.len() as int), false)]
        } else {
            seq![]
        }
    } else {
        let p = next_match(lower, q, start);
        proof {
            lemma_next_match(lower, q, start);
        }
        if p < 0 {
            seq![(content.subrange(start, content.len() as int), false)]
        } else {
            (if p > start {
                seq![(content.subrange(start, p), false)]
            } else {
                seq![]
            }) + seq![(content.subrange(p, p + q.len()), true)] + segments(
                content,
                lower,
                q,
                p + q.len(),
            )
        }
    }
}

/// The styled pieces for a list of segments.
pub open spec fn styled_segments(segs: Seq<(Seq<char>, bool)>, base: SpanStyle, hl: SpanStyle) -> Seq<
    (Seq<char>, SpanStyle),
> {
    segs.map_values(|s: (Seq<char>, bool)| (s.0, if s.1 { hl } else { base }))
}

/// The styled line of an entry: its display text in the color of its level,
/// with the case-insensitive occurrences of the query highlighted. A single
/// piece is produced when the query is empty or when lower-casing changes the
/// length of the text.
pub open spec fn styled_entry(entry: LogEntry, query: Seq<char>, theme: Theme) -> Seq<
    (Seq<char>, SpanStyle),
> {
    let content = entry.pretty@;
    let lower = lowercase(content);
    let q = lowercase(query);
    let base = fg_style(level_color(theme, entry.level));
    if query.len() == 0 || content.len() != lower.len() || q.len() == 0 {
        seq![(content, base)]
    } else {
        styled_segments(segments(content, lower, q, 0), base, highlight_style(theme))
    }
}

fn span_of(content: String, style: SpanStyle) -> (s: StyledSpan)
    ensures
        s.content@ == content@,
        s.style == style,
{
    StyledSpan { content, style }
}

fn level_color_of(theme: &Theme, level: LogLevel) -> (c: Color)
    ensures
        c == level_color(*theme, level),
{
    match level {
        LogLevel::Error => theme.error,
        LogLevel::Warn => theme.warn,
        LogLevel::Info => theme.info,
        LogLevel::Debug => theme.debug,
        LogLevel::Unknown => theme.unknown,
    }
}

/// Styles a log entry for display: the color of its level, with matches of
/// the search query (case-insensitive) highlighted.
pub fn style_log(entry: &LogEntry, search_query: &str, theme: &Theme) -> (line: StyledLine)
    ensures
        line.view_spans() == styled_entry(*entry, search_query@, *theme),
{
    let base_style = SpanStyle { fg: Some(level_color_of(theme, entry.level)), bg: None, bold: false };
    let mut spans: Vec<StyledSpan> = Vec::new();
    if search_query.is_empty() {
        spans.push(span_of(entry.pretty.clone(), base_style));
        let line = StyledLine { spans };
        proof {
            assert(line.view_spans() =~= seq![(entry.pretty@, base_style)]);
        }
        return line;
    }
    let content = chars_of(entry.pretty.as_str());
    let lower_s = to_lowercase(entry.pretty.as_str());
    let lower = chars_of(lower_s.as_str());
    let query_s = to_lowercase(search_query);
    let q = chars_of(query_s.as_str());
    if content.len() != lower.len() || q.len() == 0 {
        spans.push(span_of(entry.pretty.clone(), base_style));
        let line = StyledLine { spans };
        proof {
            assert(line.view_spans() =~= seq![(entry.pretty@, base_style)]);
        }
        return line;
    }
    let hl = SpanStyle { fg: Some(theme.highlight_fg), bg: Some(theme.highlight_bg), bold: true };
    let ghost whole = segments(content@, lower@, q@, 0);
    let n = content.len();
    let qn = q.len();
    let mut last_end: usize = 0;
    let mut i: usize = 0;
    let stop: usize = if qn <= n {
        n - qn + 1
    } else {
        0
    };
    while i < stop
        invariant
            n == content@.len(),
            n == lower@.len(),
            qn == q@.len(),
            qn >= 1,
            stop == if qn <= n {
                n - qn + 1
            } else {
                0
            },
            last_end <= i,
            i <= n,
            last_end <= n,
            next_match(lower@, q@, last_end as int) == next_match(lower@, q@, i as int),
            spans_view(spans@) + styled_segments(segments(content@, lower@, q@, last_end as int), base_style, hl)
                == styled_segments(whole, base_style, hl),
        decreases n + 1 - i,
    {
        assert(i + qn <= n);
        if matches_at(&lower, &q, i) {
            let ghost before = spans_view(spans@);
            proof {
                lemma_next_match(lower@, q@, last_end as int);
            }
            if i > last_end {
                spans.push(span_of(string_of_range(content.as_slice(), last_end, i), base_style));
            }
            spans.push(span_of(string_of_range(content.as_slice(), i, i + qn), hl));
            proof {
                let rest = segments(content@, lower@, q@, (i + qn) as int);
                let segs = segments(content@, lower@, q@, last_end as int);
                if last_end < n {
                    assert(segs == (if i > last_end {
                        seq![(content@.subrange(last_end as int, i as int), false)]
                    } else {
                        seq![]
                    }) + seq![(content@.subrange(i as int, i + qn), true)] + rest);
                }
                assert(spans_view(spans@) =~= before + styled_segments(
                    (if i > last_end {
                        seq![(content@.subrange(last_end as int, i as int), false)]
                    } else {
                        seq![]
                    }) + seq![(content@.subrange(i as int, i + qn), true)],
                    base_style,
                    hl,
                ));
                assert(styled_segments(segs, base_style, hl) =~= styled_segments(
                    (if i > last_end {
                        seq![(content@.subrange(last_end as int, i as int), false)]
                    } else {
                        seq![]
                    }) + seq![(content@.subrange(i as int, i + qn), true)],
                    base_style,
                    hl,
                ) + styled_segments(rest, base_style, hl));
            }
            last_end = i + qn;
            i = last_end;
        } else {
            proof {
                assert(next_match(lower@, q@, i as int) == next_match(lower@, q@, i + 1));
            }
            i = i + 1;
        }
    }
    proof {
        assert(next_match(lower@, q@, i as int) == -1);
    }
    if last_end < n {
        let ghost before = spans_view(spans@);
        spans.push(span_of(string_of_range(content.as_slice(), last_end, n), base_style));
        proof {
            assert(spans_view(spans@) =~= before + styled_segments(
                segments(content@, lower@, q@, last_end as int),
                base_style,
                hl,
            ));
        }
    } else {
        proof {
            assert(segments(content@, lower@, q@, last_end as int) =~= Seq::<(Seq<char>, bool)>::empty());
            assert(spans_view(spans@) =~= spans_view(spans@) + styled_segments(
                segments(content@, lower@, q@, last_end as int),
                base_style,
                hl,
            ));
        }
    }
    StyledLine { spans }
}

// ---------------------------------------------------------------------------
// Metadata prefixes
// ---------------------------------------------------------------------------

/// The pieces shown before an entry: `[relative time] ` when timestamps are
/// shown and the entry has one, then `[source] ` when it has a source.
pub open spec fn metadata_spans(e: LogEntry, show_timestamps: bool, theme: Theme, now: Timestamp) -> Seq<
    (Seq<char>, SpanStyle),
> {
    let time_part: Seq<(Seq<char>, SpanStyle)> = if show_timestamps && e.timestamp is Some {
        seq![
            (
                "["@ + relative_label(elapsed_secs(e.timestamp->Some_0, now)) + "] "@,
                fg_style(theme.timestamp_color),
            ),
        ]
    } else {
        seq![]
    };
    let source_part: Seq<(Seq<char>, SpanStyle)> = match e.source {
        Some(src) => seq![("["@ + src@ + "] "@, fg_style(theme.source_color))],
        None => seq![],
    };
    time_part + source_part
}

/// Prepends the timestamp and source prefixes of an entry to its styled line.
pub fn prepend_metadata(
    line: &mut StyledLine,
    entry: &LogEntry,
    show_timestamps: bool,
    theme: &Theme,
    now: Timestamp,
)
    ensures
        final(line).view_spans() == metadata_spans(*entry, show_timestamps, *theme, now)
            + old(line).view_spans(),
{
    let ghost orig = old(line).view_spans();
    match &entry.source {
        Some(src) => {
            let mut text = String::new();
            push_str_chars(&mut text, "[");
            push_str_chars(&mut text, src.as_str());
            push_str_chars(&mut text, "] ");
            let ghost before = line.view_spans();
            line.spans.insert(
                0,
                span_of(text, SpanStyle { fg: Some(theme.source_color), bg: None, bold: false }),
            );
            proof {
                assert(line.view_spans() =~= seq![("["@ + src@ + "] "@, fg_style(theme.source_color))]
                    + before);
            }
        },
        None => {},
    }
    if show_timestamps {
        match entry.timestamp {
            Some(ts) => {
                let relative = format_relative_time_at(ts, now);
                let mut text = String::new();
                push_str_chars(&mut text, "[");
                push_str_chars(&mut text, relative.as_str());
                push_str_chars(&mut text, "] ");
                let ghost before = line.view_spans();
                line.spans.insert(
                    0,
                    span_of(
                        text,
                        SpanStyle { fg: Some(theme.timestamp_color), bg: None, bold: false },
                    ),
                );
                proof {
                    assert(line.view_spans() =~= seq![
                        (
                            "["@ + relative_label(elapsed_secs(ts, now)) + "] "@,
                            fg_style(theme.timestamp_color),
                        ),
                    ] + before);
                }
            },
            None => {},
        }
    }
    proof {
        assert(line.view_spans() =~= metadata_spans(*entry, show_timestamps, *theme, now) + orig);
    }
}

// ---------------------------------------------------------------------------
// Status bar
// ---------------------------------------------------------------------------

/// The indicators after the entry count: regex mode (and whether the regex is
/// invalid), relative time, the theme name and the source label.
pub open spec fn status_suffix(v: AppView) -> Seq<char> {
    let regex: Seq<char> = if v.use_regex {
        if v.matcher is Invalid {
            " | INVALID REGEX"@
        } else {
            " | REGEX"@
        }
    } else {
        Seq::empty()
    };
    let time: Seq<char> = if v.show_timestamps {
        " | REL TIME"@
    } else {
        Seq::empty()
    };
    let theme: Seq<char> = " | "@ + v.theme.name@;
    let source: Seq<char> = if v.source_label.len() == 0 {
        Seq::empty()
    } else {
        " | "@ + v.source_label
    };
    regex + time + theme + source
}

/// The title of the status bar: the export message when there is one, else
/// the follow state, wrapping, level filter, entry counts and indicators.
pub open spec fn status_title(v: AppView, shown: nat, total: nat) -> Seq<char> {
    match v.last_export_message {
        Some(msg) => " "@ + msg + " "@,
        None => {
            let status: Seq<char> = if v.auto_scroll {
                "FOLLOWING"@
            } else {
                "PAUSED"@
            };
            let wrap: Seq<char> = if v.line_wrap {
                "WRAP"@
            } else {
                "NOWRAP"@
            };
            let level: Seq<char> = match v.min_log_level {
                Some(l) => "\u{2265}"@ + label_of(l),
                None => "ALL"@,
            };
            let count: Seq<char> = if shown == total {
                decimal(total)
            } else {
                decimal(shown) + "/"@ + decimal(total)
            };
            " / filter | "@ + status + " | "@ + wrap + " | "@ + level + " | "@ + count + " logs"@
                + status_suffix(v) + " "@
        },
    }
}

/// Builds the optional suffix indicators (regex, time, theme, source).
pub fn build_status_suffix(app: &App) -> (r: String)
    ensures
        r@ == status_suffix(app@),
{
    let mut r = String::new();
    if app.use_regex {
        if app.is_regex_invalid() {
            push_str_chars(&mut r, " | INVALID REGEX");
        } else {
            push_str_chars(&mut r, " | REGEX");
        }
    }
    if app.show_timestamps {
        push_str_chars(&mut r, " | REL TIME");
    }
    push_str_chars(&mut r, " | ");
    push_str_chars(&mut r, app.theme.name);
    if !app.source_label.as_str().is_empty() {
        push_str_chars(&mut r, " | ");
        push_str_chars(&mut r, app.source_label.as_str());
    }
    proof {
        let v = app@;
        let regex: Seq<char> = if v.use_regex {
            if v.matcher is Invalid {
                " | INVALID REGEX"@
            } else {
                " | REGEX"@
            }
        } else {
            Seq::empty()
        };
        let time: Seq<char> = if v.show_timestamps {
            " | REL TIME"@
        } else {
            Seq::empty()
        };
        let source: Seq<char> = if v.source_label.len() == 0 {
            Seq::empty()
        } else {
            " | "@ + v.source_label
        };
        assert(r@ =~= regex + time + (" | "@ + v.theme.name@) + source);
    }
    r
}

/// Builds the status bar title for the input bar.
pub fn build_status_title(app: &App, shown: usize, total: usize) -> (r: String)
    ensures
        r@ == status_title(app@, shown as nat, total as nat),
{
    let mut r = String::new();
    match &app.last_export_message {
        Some(msg) => {
            push_str_chars(&mut r, " ");
            push_str_chars(&mut r, msg.as_str());
            push_str_chars(&mut r, " ");
            return r;
        },
        None => {},
    }
    let ghost v = app@;
    let ghost status: Seq<char> = if v.auto_scroll {
        "FOLLOWING"@
    } else {
        "PAUSED"@
    };
    let ghost wrap: Seq<char> = if v.line_wrap {
        "WRAP"@
    } else {
        "NOWRAP"@
    };
    let ghost level: Seq<char> = match v.min_log_level {
        Some(l) => "\u{2265}"@ + label_of(l),
        None => "ALL"@,
    };
    let ghost count: Seq<char> = if shown == total {
        decimal(total as nat)
    } else {
        decimal(shown as nat) + "/"@ + decimal(total as nat)
    };
    push_str_chars(&mut r, " / filter | ");
    if app.auto_scroll {
        push_str_chars(&mut r, "FOLLOWING");
    } else {
        push_str_chars(&mut r, "PAUSED");
    }
    push_str_chars(&mut r, " | ");
    assert(r@ =~= " / filter | "@ + status + " | "@);
    let ghost head1 = r@;
    if app.line_wrap {
        push_str_chars(&mut r, "WRAP");
    } else {
        push_str_chars(&mut r, "NOWRAP");
    }
    push_str_chars(&mut r, " | ");
    assert(r@ =~= head1 + wrap + " | "@);
    let ghost head2 = r@;
    match app.min_log_level {
        Some(l) => {
            push_str_chars(&mut r, "\u{2265}");
            push_str_chars(&mut r, l.label());
        },
        None => {
            push_str_chars(&mut r, "ALL");
        },
    }
    push_str_chars(&mut r, " | ");
    assert(r@ =~= head2 + level + " | "@);
    let ghost head3 = r@;
    if shown == total {
        push_decimal(&mut r, total as u64);
    } else {
        push_decimal(&mut r, shown as u64);
        push_str_chars(&mut r, "/");
        push_decimal(&mut r, total as u64);
    }
    push_str_chars(&mut r, " logs");
    assert(r@ =~= head3 + count + " logs"@);
    let ghost head4 = r@;
    let suffix = build_status_suffix(app);
    push_str_chars(&mut r, suffix.as_str());
    push_str_chars(&mut r, " ");
    assert(r@ =~= head4 + status_suffix(v) + " "@);
    assert(r@ =~= " / filter | "@ + status + " | "@ + wrap + " | "@ + level + " | "@ + count
        + " logs"@ + status_suffix(v) + " "@);
    r
}

// ---------------------------------------------------------------------------
// Auto-scroll
// ---------------------------------------------------------------------------

/// Scanning entries from index `i` down, with `used` rows already taken: the
/// first entry to show so that the last entries fill at most `height` rows,
/// always keeping the last entry.
pub open spec fn auto_scroll_scan(rows: Seq<int>, height: int, i: int, used: int) -> int
    decreases i + 1,
{
    if i < 0 {
        0
    } else if used + rows[i] > height {
        if i + 1 < rows.len() - 1 {
            i + 1
        } else {
            rows.len() - 1
        }
    } else {
        auto_scroll_scan(rows, height, i - 1, used + rows[i])
    }
}

/// The first entry shown when following the end of the log.
pub open spec fn auto_scroll_start(rows: Seq<int>, height: int) -> int {
    if rows.len() == 0 || height == 0 {
        0
    } else {
        auto_scroll_scan(rows, height, rows.len() - 1, 0)
    }
}

/// The rows of each entry.
pub open spec fn rows_of_entries(
    entries: Seq<LogEntry>,
    width: int,
    line_wrap: bool,
    show_timestamps: bool,
    now: Timestamp,
) -> Seq<int> {
    entries.map_values(|e: LogEntry| entry_rows(e, width, line_wrap, show_timestamps, now))
}

/// Finds the index of the first entry to display when following the end of
/// the log: the last entries that fit in the viewport, at least the last one.
pub fn compute_auto_scroll_entry(
    entries: &Vec<&LogEntry>,
    viewport_height: usize,
    viewport_width: usize,
    line_wrap: bool,
    show_timestamps: bool,
    now: Timestamp,
) -> (r: usize)
    ensures
        r == auto_scroll_start(
            rows_of_entries(
                entries@.map_values(|e: &LogEntry| *e),
                viewport_width as int,
                line_wrap,
                show_timestamps,
                now,
            ),
            viewport_height as int,
        ),
{
    let ghost rows = rows_of_entries(
        entries@.map_values(|e: &LogEntry| *e),
        viewport_width as int,
        line_wrap,
        show_timestamps,
        now,
    );
    if entries.len() == 0 || viewport_height == 0 {
        return 0;
    }
    let last_index = entries.len() - 1;
    let mut lines_used: usize = 0;
    let mut i: usize = entries.len();
    while i > 0
        invariant
            rows.len() == entries@.len(),
            last_index + 1 == entries@.len(),
            i <= entries@.len(),
            lines_used <= viewport_height,
            auto_scroll_start(rows, viewport_height as int) == auto_scroll_scan(
                rows,
                viewport_height as int,
                i - 1,
                lines_used as int,
            ),
            rows == rows_of_entries(
                entries@.map_values(|e: &LogEntry| *e),
                viewport_width as int,
                line_wrap,
                show_timestamps,
                now,
            ),
        decreases i,
    {
        let idx = i - 1;
        let entry_lines = entry_visual_lines(
            entries[idx],
            viewport_width,
            line_wrap,
            show_timestamps,
            now,
        );
        proof {
            assert(rows[idx as int] == entry_lines);
        }
        match lines_used.checked_add(entry_lines) {
            Some(total) => {
                if total > viewport_height {
                    return if idx + 1 < last_index {
                        idx + 1
                    } else {
                        last_index
                    };
                }
                lines_used = total;
            },
            None => {
                return if idx + 1 < last_index {
                    idx + 1
                } else {
                    last_index
                };
            },
        }
        i = idx;
    }
    0
}

// ---------------------------------------------------------------------------
// The log area
// ---------------------------------------------------------------------------

/// The first filtered entry shown: when following, the last entries that fit;
/// otherwise the scroll position, kept within the filtered entries.
pub open spec fn first_shown(v: AppView, height: int, width: int, now: Timestamp) -> int {
    let filtered = crate::app::filtered_of(v);
    if v.auto_scroll {
        auto_scroll_start(
            rows_of_entries(filtered, width, v.line_wrap, v.show_timestamps, now),
            height,
        )
    } else if v.scroll < sat_dec(filtered.len() as int) {
        v.scroll as int
    } else {
        sat_dec(filtered.len() as int)
    }
}

/// The styled line of one shown entry: metadata prefixes, then the styled text
/// (with the filter input highlighted, except in regex mode).
pub open spec fn shown_line(v: AppView, e: LogEntry, now: Timestamp) -> Seq<(Seq<char>, SpanStyle)> {
    let query = if v.use_regex {
        Seq::empty()
    } else {
        v.input_buffer
    };
    metadata_spans(e, v.show_timestamps, v.theme, now) + styled_entry(e, query, v.theme)
}

/// Computes the styled lines of the log area, for a viewport of the given size.
pub fn visible_log_lines(app: &App, viewport_height: usize, viewport_width: usize, now: Timestamp) -> (r:
    Vec<StyledLine>)
    ensures
        ({
            let filtered = crate::app::filtered_of(app@);
            let start = first_shown(app@, viewport_height as int, viewport_width as int, now);
            &&& 0 <= start <= filtered.len()
            &&& r@.len() == filtered.len() - start
            &&& forall|k: int|
                0 <= k < r@.len() ==> #[trigger] r@[k].view_spans() == shown_line(
                    app@,
                    filtered[start + k],
                    now,
                )
        }),
{
    let filtered = app.get_filtered_logs();
    let ghost fs = filtered@.map_values(|e: &LogEntry| *e);
    let start = if app.auto_scroll {
        compute_auto_scroll_entry(
            &filtered,
            viewport_height,
            viewport_width,
            app.line_wrap,
            app.show_timestamps,
            now,
        )
    } else {
        let last = if filtered.len() > 0 {
            filtered.len() - 1
        } else {
            0
        };
        if app.scroll < last {
            app.scroll
        } else {
            last
        }
    };
    proof {
        if app.auto_scroll {
            lemma_auto_scroll_start_bounds(
                rows_of_entries(fs, viewport_width as int, app.line_wrap, app.show_timestamps, now),
                viewport_height as int,
            );
        }
    }
    let empty = String::new();
    let query: &str = if app.use_regex {
        empty.as_str()
    } else {
        app.input_buffer.as_str()
    };
    let mut out: Vec<StyledLine> = Vec::new();
    let mut i: usize = start;
    while i < filtered.len()
        invariant
            fs == filtered@.map_values(|e: &LogEntry| *e),
            fs == crate::app::filtered_of(app@),
            start <= i <= filtered@.len(),
            out@.len() == i - start,
            query@ == (if app@.use_regex {
                Seq::<char>::empty()
            } else {
                app@.input_buffer
            }),
            forall|k: int|
                0 <= k < out@.len() ==> #[trigger] out@[k].view_spans() == shown_line(
                    app@,
                    fs[start + k],
                    now,
                ),
        decreases filtered.len() - i,
    {
        let e = filtered[i];
        let mut line = style_log(e, query, &app.theme);
        prepend_metadata(&mut line, e, app.show_timestamps, &app.theme, now);
        out.push(line);
        i = i + 1;
    }
    out
}

/// The start position chosen for following is within the entries.
pub proof fn lemma_auto_scroll_start_bounds(rows: Seq<int>, height: int)
    ensures
        0 <= auto_scroll_start(rows, height),
        rows.len() > 0 ==> auto_scroll_start(rows, height) < rows.len(),
        rows.len() == 0 ==> auto_scroll_start(rows, height) == 0,
{
    if rows.len() > 0 && height != 0 {
        lemma_scan_bounds(rows, height, rows.len() - 1, 0);
    }
}

proof fn lemma_scan_bounds(rows: Seq<int>, height: int, i: int, used: int)
    requires
        i < rows.len(),
    ensures
        0 <= auto_scroll_scan(rows, height, i, used) < rows.len() || (rows.len() == 0
            && auto_scroll_scan(rows, height, i, used) == 0),
    decreases i + 1,
{
    if i >= 0 && used + rows[i] <= height {
        lemma_scan_bounds(rows, height, i - 1, used + rows[i]);
    }
}

/// The color of the input bar: the theme's active color while editing the
/// filter, the default color otherwise.
pub fn input_bar_color(app: &App) -> (r: Option<Color>)
    ensures
        r == (if app.input_mode == InputMode::Editing { Some(app.theme.input_active) } else { None }),
{
    match app.input_mode {
        InputMode::Editing => Some(app.theme.input_active),
        InputMode::Normal => None,
    }
}

} // verus!

//! Layout measurement: how many terminal rows a log entry occupies.
//!
//! Where a count would not fit in `usize` (which only absurdly long texts or
//! prefix widths can cause), the functions here return `usize::MAX`.

use vstd::prelude::*;

use crate::parser::LogEntry;
use crate::text::{chars_of, lines_spec, split_lines, string_of};
use crate::timestamp::{elapsed_secs, format_relative_time_at, relative_label, Timestamp};

verus! {

/// The display width that `UnicodeWidthStr::width` reports for a text.
pub uninterp spec fn display_width(s: Seq<char>) -> nat;

/// Calls `unicode_width::UnicodeWidthStr::width`; the width is named by `display_width`.
#[verifier::external_body]
pub(crate) fn str_width(s: &str) -> (w: usize)
    ensures
        w == display_width(s@),
{
    unicode_width::UnicodeWidthStr::width(s)
}

/// `x` capped at `usize::MAX`.
pub open spec fn cap(x: int) -> int {
    if x > usize::MAX {
        usize::MAX as int
    } else {
        x
    }
}

/// At least one.
pub open spec fn at_least_one(x: int) -> int {
    if x < 1 {
        1
    } else {
        x
    }
}

/// Rows taken by one line of the given display width: at least one, and the
/// width divided by the available columns, rounded up.
pub open spec fn line_rows(w: int, width: int) -> int {
    if w == 0 {
        1
    } else {
        (w + width - 1) / width
    }
}

/// Rows taken by the lines `0..n`, the first one preceded by `prefix` columns.
pub open spec fn rows_of_lines(lines: Seq<Seq<char>>, n: int, width: int, prefix: int) -> int
    decreases n,
{
    if n <= 0 {
        0
    } else {
        rows_of_lines(lines, n - 1, width, prefix) + line_rows(
            display_width(lines[n - 1]) + if n - 1 == 0 {
                prefix
            } else {
                0
            },
            width,
        )
    }
}

/// The number of rows a text occupies when wrapped to `width` columns (its
/// number of lines when `width` is zero), at least one.
pub open spec fn visual_lines(text: Seq<char>, width: int, prefix: int) -> int {
    let lines = lines_spec(text);
    if width == 0 {
        at_least_one(lines.len() as int)
    } else {
        at_least_one(rows_of_lines(lines, lines.len() as int, width, prefix))
    }
}

/// The number of lines of a text without wrapping, at least one.
pub open spec fn raw_lines(text: Seq<char>) -> int {
    at_least_one(lines_spec(text).len() as int)
}

/// Computes the number of visual lines a text occupies when wrapped to a given width.
///
/// `prefix_width` is the display width of metadata shown before the first line.
pub fn compute_visual_lines(text: &str, width: usize, prefix_width: usize) -> (r: usize)
    ensures
        r == cap(visual_lines(text@, width as int, prefix_width as int)),
{
    let chars = chars_of(text);
    let lines = split_lines(chars.as_slice());
    let ghost ls = lines@.map_values(|l: Vec<char>| l@);
    if width == 0 {
        return if lines.len() == 0 {
            1
        } else {
            lines.len()
        };
    }
    let mut total: u128 = 0;
    let mut i: usize = 0;
    while i < lines.len()
        invariant
            width > 0,
            ls == lines@.map_values(|l: Vec<char>| l@),
            ls == lines_spec(text@),
            i <= lines@.len(),
            total == rows_of_lines(ls, i as int, width as int, prefix_width as int),
            total <= usize::MAX,
        decreases lines.len() - i,
    {
        let line_text = string_of(lines[i].as_slice());
        let w = str_width(line_text.as_str());
        proof {
            assert(ls[i as int] == lines@[i as int]@);
        }
        let line_total: u128 = if i == 0 {
            (w as u128) + (prefix_width as u128)
        } else {
            w as u128
        };
        let rows: u128 = if line_total == 0 {
            1
        } else {
            (line_total + (width as u128) - 1) / (width as u128)
        };
        proof {
            assert(rows <= line_total + 1) by (nonlinear_arith)
                requires
                    line_total == 0 ==> rows == 1,
                    line_total != 0 ==> rows == (line_total + width - 1) / (width as int),
                    width >= 1,
            ;
        }
        total = total + rows;
        i = i + 1;
        if total > usize::MAX as u128 {
            proof {
                lemma_rows_monotone(ls, i as int, ls.len() as int, width as int, prefix_width as int);
            }
            return usize::MAX;
        }
    }
    if total == 0 {
        1
    } else {
        total as usize
    }
}

/// More lines never take fewer rows.
pub proof fn lemma_rows_monotone(lines: Seq<Seq<char>>, i: int, j: int, width: int, prefix: int)
    requires
        0 <= i <= j,
        width > 0,
        prefix >= 0,
    ensures
        rows_of_lines(lines, i, width, prefix) <= rows_of_lines(lines, j, width, prefix),
    decreases j - i,
{
    if i < j {
        lemma_rows_monotone(lines, i, j - 1, width, prefix);
        let w = display_width(lines[j - 1]) + if j - 1 == 0 {
            prefix
        } else {
            0
        };
        assert(line_rows(w, width) >= 0) by (nonlinear_arith)
            requires
                width > 0,
                w >= 0,
                line_rows(w, width) == if w == 0 {
                    1
                } else {
                    (w + width - 1) / width
                },
        ;
    }
}

/// Counts the number of newline-separated lines in the text (no wrapping).
pub fn compute_raw_lines(text: &str) -> (r: usize)
    ensures
        r == raw_lines(text@),
{
    let chars = chars_of(text);
    let lines = split_lines(chars.as_slice());
    proof {
        assert(lines@.map_values(|l: Vec<char>| l@).len() == lines@.len());
    }
    if lines.len() == 0 {
        1
    } else {
        lines.len()
    }
}

/// Display width of the `[source] ` and `[relative time] ` prefixes shown
/// before an entry (the time only when timestamps are shown and the entry has one).
pub open spec fn metadata_width(e: LogEntry, show_timestamps: bool, now: Timestamp) -> int {
    let source_part: int = match e.source {
        Some(src) => 3 + display_width(src@) as int,
        None => 0,
    };
    let time_part: int = if show_timestamps && e.timestamp is Some {
        3 + display_width(relative_label(elapsed_secs(e.timestamp->Some_0, now))) as int
    } else {
        0
    };
    source_part + time_part
}

/// Computes the display width of the metadata prefixes of a log entry.
pub fn metadata_prefix_display_width(entry: &LogEntry, show_timestamps: bool, now: Timestamp) -> (r:
    usize)
    ensures
        r == cap(metadata_width(*entry, show_timestamps, now)),
{
    let mut width: u128 = 0;
    match &entry.source {
        Some(src) => {
            width = 3 + str_width(src.as_str()) as u128;
        },
        None => {},
    }
    if show_timestamps {
        match entry.timestamp {
            Some(ts) => {
                let relative = format_relative_time_at(ts, now);
                width = width + 3 + str_width(relative.as_str()) as u128;
            },
            None => {},
        }
    }
    if width > usize::MAX as u128 {
        usize::MAX
    } else {
        width as usize
    }
}

/// Rows an entry occupies: wrapped with its metadata prefix, or its raw line count.
pub open spec fn entry_rows(
    e: LogEntry,
    width: int,
    line_wrap: bool,
    show_timestamps: bool,
    now: Timestamp,
) -> int {
    if line_wrap {
        cap(visual_lines(e.pretty@, width, cap(metadata_width(e, show_timestamps, now))))
    } else {
        raw_lines(e.pretty@)
    }
}

/// Computes how many visual lines a single entry occupies.
pub fn entry_visual_lines(
    entry: &LogEntry,
    width: usize,
    line_wrap: bool,
    show_timestamps: bool,
    now: Timestamp,
) -> (r: usize)
    ensures
        r == entry_rows(*entry, width as int, line_wrap, show_timestamps, now),
{
    if line_wrap {
        let pw = metadata_prefix_display_width(entry, show_timestamps, now);
        compute_visual_lines(entry.pretty.as_str(), width, pw)
    } else {
        compute_raw_lines(entry.pretty.as_str())
    }
}

/// Rows of the log area for a terminal of the given height: five rows go to
/// the borders and the input bar.
pub fn log_area_height(terminal_rows: u16) -> (r: u16)
    ensures
        r == (if terminal_rows >= 5 { terminal_rows - 5 } else { 0 }),
{
    if terminal_rows >= 5 {
        terminal_rows - 5
    } else {
        0
    }
}

} // verus!

//! Properties of the viewer that hold across operations: the bounded buffer,
//! scrolling bounds, the filters, highlighting, truncation and tailing.

use vstd::prelude::*;

use crate::app::{
    after_entry, buffer_after_push, max_scroll_of, clamped, cycled_level, filtered_of, level_admits, matcher_admits,
    matcher_compiled_from, sat_dec, scrolled_down, scrolled_down_by, scrolled_up_by, visible_in,
    AppView, InputMode, TextMatcher,
};
use crate::config::{MAX_INPUT_BUFFER_SIZE, MAX_LOG_BUFFER_SIZE, MAX_LOG_LINE_SIZE};
use crate::inputs::{erased, key_effect, typed, KeyCode, KeyEvent, KeyEventKind, KeyOutcome};
use crate::parser::{severity_of, LogEntry, LogLevel};
use crate::sources::{
    fitting_prefix, lemma_fitting_prefix, lemma_utf8_len_push, tail_step_spec, truncated,
    utf8_len, without_line_ending, TRUNCATION_SUFFIX, TRUNCATION_SUFFIX_LEN,
};
use crate::text::{contains_seq, lowercase};
use crate::view::{auto_scroll_scan, auto_scroll_start, segments, lemma_next_match, next_match};
use vstd::utf8::encode_utf8;

verus! {

broadcast use vstd::seq_lib::group_seq_properties;

// ---------------------------------------------------------------------------
// The log buffer
// ---------------------------------------------------------------------------

/// The buffer never holds more than `MAX_LOG_BUFFER_SIZE` entries, always ends
/// with the newest entry, and keeps the newest entries in arrival order.
pub proof fn buffer_keeps_newest_entries(logs: Seq<LogEntry>, e: LogEntry)
    requires
        logs.len() <= MAX_LOG_BUFFER_SIZE,
    ensures
        buffer_after_push(logs, e).len() <= MAX_LOG_BUFFER_SIZE,
        buffer_after_push(logs, e).last() == e,
        buffer_after_push(logs, e) == logs.push(e).skip(
            logs.len() + 1 - buffer_after_push(logs, e).len(),
        ),
{
    if logs.len() >= MAX_LOG_BUFFER_SIZE {
        assert(logs.drop_first().push(e) =~= logs.push(e).skip(1));
    } else {
        assert(logs.push(e) =~= logs.push(e).skip(0));
    }
}

/// Adding an entry to a buffer within its bound keeps it within the bound:
/// the oldest entry goes when the buffer is full, the new one goes at the end,
/// the scroll position moves up by one (not below zero) when an entry went,
/// the counter of processed entries grows by one, and nothing else changes.
pub proof fn adding_an_entry_keeps_the_newest(o: AppView, e: LogEntry)
    requires
        o.logs.len() <= MAX_LOG_BUFFER_SIZE,
        o.logs_processed < u64::MAX,
    ensures
        after_entry(o, e).logs.len() <= MAX_LOG_BUFFER_SIZE,
        after_entry(o, e).logs == (if o.logs.len() >= MAX_LOG_BUFFER_SIZE {
            o.logs.subrange(1, o.logs.len() as int)
        } else {
            o.logs
        }).push(e),
        after_entry(o, e).scroll == (if o.logs.len() >= MAX_LOG_BUFFER_SIZE {
            sat_dec(o.scroll as int)
        } else {
            o.scroll as int
        }),
        after_entry(o, e).logs_processed == o.logs_processed + 1,
        after_entry(o, e) == (AppView {
            logs: after_entry(o, e).logs,
            scroll: after_entry(o, e).scroll,
            logs_processed: after_entry(o, e).logs_processed,
            ..o
        }),
{
    if o.logs.len() >= MAX_LOG_BUFFER_SIZE {
        assert(o.logs.drop_first() =~= o.logs.subrange(1, o.logs.len() as int));
    }
}

// ---------------------------------------------------------------------------
// Filters
// ---------------------------------------------------------------------------

/// The filtered entries are exactly the visible entries of the buffer, in
/// buffer order: each of them is visible, and each visible entry is among them.
pub proof fn filtered_entries_are_the_visible_ones(v: AppView)
    ensures
        filtered_of(v).len() <= v.logs.len(),
        forall|i: int| 0 <= i < filtered_of(v).len() ==> #[trigger] visible_in(v)(filtered_of(v)[i]),
        forall|i: int|
            0 <= i < v.logs.len() && #[trigger] visible_in(v)(v.logs[i]) ==> filtered_of(v).contains(
                v.logs[i],
            ),
{
    v.logs.lemma_filter_len(visible_in(v));
    assert forall|i: int| 0 <= i < filtered_of(v).len() implies #[trigger] visible_in(v)(
        filtered_of(v)[i],
    ) by {
        v.logs.lemma_filter_pred(visible_in(v), i);
    }
    assert forall|i: int|
        0 <= i < v.logs.len() && #[trigger] visible_in(v)(v.logs[i]) implies filtered_of(v).contains(
        v.logs[i],
    ) by {
        v.logs.lemma_filter_contains(visible_in(v), i);
    }
}

/// Cycling the level filter five times gives the filter back: all, Error,
/// Warn, Info, Debug, all.
pub proof fn level_cycle_has_period_five(m: Option<LogLevel>)
    requires
        m != Some(LogLevel::Unknown),
    ensures
        cycled_level(cycled_level(cycled_level(cycled_level(cycled_level(m))))) == m,
{
}

/// A less severe minimum level admits every entry that a more severe one
/// admits, and no minimum admits every entry.
pub proof fn weaker_level_filter_admits_more(a: LogLevel, b: LogLevel, l: LogLevel)
    requires
        severity_of(a) <= severity_of(b),
    ensures
        level_admits(Some(a), l) ==> level_admits(Some(b), l),
        level_admits(None, l),
{
}

/// An empty filter input admits every text, in either mode.
pub proof fn empty_filter_admits_everything(use_regex: bool, m: TextMatcher, text: Seq<char>)
    requires
        matcher_compiled_from(Seq::empty(), use_regex, m),
    ensures
        matcher_admits(m, text),
{
}

/// Without regex mode, a text passes the filter when its lower-cased form
/// contains the lower-cased input.
pub proof fn substring_filter_ignores_case(input: Seq<char>, m: TextMatcher, text: Seq<char>)
    requires
        input.len() > 0,
        matcher_compiled_from(input, false, m),
    ensures
        matcher_admits(m, text) == contains_seq(lowercase(text), lowercase(input)),
{
}

/// An invalid regex admits no text.
pub proof fn invalid_regex_admits_nothing(m: TextMatcher, text: Seq<char>)
    requires
        m is Invalid,
    ensures
        !matcher_admits(m, text),
{
}

/// With no filter at all, every entry of the buffer is shown.
pub proof fn no_filter_shows_every_entry(v: AppView)
    requires
        v.min_log_level is None,
        v.matcher is All,
    ensures
        filtered_of(v) == v.logs,
    decreases v.logs.len(),
{
    reveal(Seq::filter);
    if v.logs.len() > 0 {
        let w = AppView { logs: v.logs.drop_last(), ..v };
        no_filter_shows_every_entry(w);
        assert(visible_in(w) == visible_in(v));
        assert(v.logs.drop_last().push(v.logs.last()) =~= v.logs);
    } else {
        assert(filtered_of(v) =~= v.logs);
    }
}

// ---------------------------------------------------------------------------
// Scrolling
// ---------------------------------------------------------------------------

/// Scrolling down, paging down and clamping never move past the last
/// filtered entry when starting within the entries; clamping always brings
/// the position within them and leaves a position within them unchanged.
pub proof fn scrolling_stays_within_entries(scroll: int, n: int, max: int)
    requires
        0 <= scroll,
        0 <= n,
        0 <= max,
    ensures
        scroll <= max ==> scrolled_down(scroll, max) <= max,
        scrolled_down_by(scroll, n, max) <= max,
        0 <= scrolled_up_by(scroll, n) <= scroll,
        0 <= clamped(scroll, max) <= max,
        scroll <= max ==> clamped(scroll, max) == scroll,
        clamped(clamped(scroll, max), max) == clamped(scroll, max),
{
}

/// One step up followed by one step down returns to the same entry, away
/// from the top and the bottom.
pub proof fn scroll_up_then_down_returns(scroll: int, max: int)
    requires
        0 < scroll <= max,
    ensures
        scrolled_down(sat_dec(scroll), max) == scroll,
{
}

/// The filter input never grows beyond `MAX_INPUT_BUFFER_SIZE` characters by typing.
pub proof fn typing_respects_input_limit(input: Seq<char>, c: char)
    requires
        input.len() <= MAX_INPUT_BUFFER_SIZE,
    ensures
        typed(input, c).len() <= MAX_INPUT_BUFFER_SIZE,
        input.len() < MAX_INPUT_BUFFER_SIZE ==> typed(input, c) == input.push(c),
        erased(typed(input, c)) == input || typed(input, c) == input,
{
}

// ---------------------------------------------------------------------------
// Following the end of the log
// ---------------------------------------------------------------------------

/// The sum of the rows of entries `i..`.
pub open spec fn rows_from(rows: Seq<int>, i: int) -> int
    decreases rows.len() - i,
{
    if i < 0 || i >= rows.len() {
        0
    } else {
        rows[i] + rows_from(rows, i + 1)
    }
}

proof fn lemma_scan(rows: Seq<int>, height: int, i: int, used: int)
    requires
        -1 <= i < rows.len(),
        rows.len() > 0,
        used == rows_from(rows, i + 1),
        used <= height,
        forall|k: int| 0 <= k < rows.len() ==> rows[k] >= 0,
    ensures
        ({
            let r = auto_scroll_scan(rows, height, i, used);
            &&& 0 <= r < rows.len()
            &&& (r < rows.len() - 1 ==> rows_from(rows, r) <= height)
            &&& (r > 0 ==> rows_from(rows, r - 1) > height)
        }),
    decreases i + 1,
{
    if i >= 0 {
        assert(rows_from(rows, i) == rows[i] + rows_from(rows, i + 1));
        if used + rows[i] > height {
            if i >= 1 {
                assert(rows_from(rows, i - 1) == rows[i - 1] + rows_from(rows, i));
            }
        } else {
            lemma_scan(rows, height, i - 1, used + rows[i]);
        }
    }
}

/// When following the end of the log, the entries shown from the chosen
/// first entry fit in the viewport (unless only the last entry is shown), and
/// showing one more entry before it would not fit.
pub proof fn following_shows_the_most_entries_that_fit(rows: Seq<int>, height: int)
    requires
        rows.len() > 0,
        height > 0,
        forall|k: int| 0 <= k < rows.len() ==> rows[k] >= 0,
    ensures
        0 <= auto_scroll_start(rows, height) < rows.len(),
        auto_scroll_start(rows, height) < rows.len() - 1 ==> rows_from(
            rows,
            auto_scroll_start(rows, height),
        ) <= height,
        auto_scroll_start(rows, height) > 0 ==> rows_from(rows, auto_scroll_start(rows, height) - 1)
            > height,
{
    lemma_scan(rows, height, rows.len() - 1, 0);
}

// ---------------------------------------------------------------------------
// Highlighting
// ---------------------------------------------------------------------------

/// The text of a list of highlighting segments, one after the other.
pub open spec fn segments_text(segs: Seq<(Seq<char>, bool)>) -> Seq<char>
    decreases segs.len(),
{
    if segs.len() == 0 {
        Seq::empty()
    } else {
        segs[0].0 + segments_text(segs.drop_first())
    }
}

proof fn lemma_segments_text_single(x: (Seq<char>, bool))
    ensures
        segments_text(seq![x]) == x.0,
{
    let s = seq![x];
    assert(s.drop_first() =~= Seq::<(Seq<char>, bool)>::empty());
    assert(segments_text(s.drop_first()) == Seq::<char>::empty());
    assert(segments_text(s) == s[0].0 + segments_text(s.drop_first()));
    assert(x.0 + Seq::<char>::empty() =~= x.0);
}

proof fn lemma_segments_text_add(a: Seq<(Seq<char>, bool)>, b: Seq<(Seq<char>, bool)>)
    ensures
        segments_text(a + b) == segments_text(a) + segments_text(b),
    decreases a.len(),
{
    if a.len() == 0 {
        assert(a + b =~= b);
    } else {
        assert((a + b).drop_first() =~= a.drop_first() + b);
        lemma_segments_text_add(a.drop_first(), b);
    }
}

/// Highlighting splits a text without changing it: the segments, one after
/// the other, give back the text from where they start; and each highlighted
/// segment is a case-insensitive occurrence of the query.
pub proof fn highlighting_keeps_the_text(content: Seq<char>, lower: Seq<char>, q: Seq<char>, start: int)
    requires
        lower.len() == content.len(),
        0 <= start <= content.len(),
    ensures
        segments_text(segments(content, lower, q, start)) == content.subrange(
            start,
            content.len() as int,
        ),
        forall|k: int|
            0 <= k < segments(content, lower, q, start).len() && (#[trigger] segments(
                content,
                lower,
                q,
                start,
            )[k]).1 ==> exists|p: int|
                crate::text::occurs_at(lower, q, p) && segments(content, lower, q, start)[k].0
                    == content.subrange(p, p + q.len()),
    decreases lower.len() + 1 - start,
{
    let segs = segments(content, lower, q, start);
    if q.len() == 0 || start >= content.len() {
        if start < content.len() {
            lemma_segments_text_single((content.subrange(start, content.len() as int), false));
        } else {
            assert(segs.len() == 0);
        }
    } else {
        let p = next_match(lower, q, start);
        lemma_next_match(lower, q, start);
        if p < 0 {
            lemma_segments_text_single((content.subrange(start, content.len() as int), false));
        } else {
            let before: Seq<(Seq<char>, bool)> = if p > start {
                seq![(content.subrange(start, p), false)]
            } else {
                seq![]
            };
            let mid: Seq<(Seq<char>, bool)> = seq![(content.subrange(p, p + q.len()), true)];
            let rest = segments(content, lower, q, p + q.len());
            highlighting_keeps_the_text(content, lower, q, p + q.len());
            assert(segs == before + mid + rest);
            lemma_segments_text_add(before + mid, rest);
            lemma_segments_text_add(before, mid);
            lemma_segments_text_single((content.subrange(p, p + q.len()), true));
            if p > start {
                lemma_segments_text_single((content.subrange(start, p), false));
            } else {
                assert(segments_text(before) =~= Seq::<char>::empty());
            }
            assert(segments_text(segs) =~= content.subrange(start, content.len() as int));
            assert forall|k: int|
                0 <= k < segs.len() && (#[trigger] segs[k]).1 implies exists|pp: int|
                crate::text::occurs_at(lower, q, pp) && segs[k].0 == content.subrange(
                    pp,
                    pp + q.len(),
                ) by {
                if k < before.len() {
                } else if k == before.len() {
                    assert(segs[k] == mid[0]);
                } else {
                    assert(segs[k] == rest[k - before.len() - 1]);
                }
            }
        }
    }
}

// ---------------------------------------------------------------------------
// Source lines
// ---------------------------------------------------------------------------

/// A kept line never exceeds `MAX_LOG_LINE_SIZE` bytes of UTF-8; truncating
/// a kept line again changes nothing; and a truncated line starts with the
/// beginning of the line it was cut from and ends with the truncation suffix.
pub proof fn truncation_bounds_line_size(s: Seq<char>)
    ensures
        utf8_len(truncated(s)) <= MAX_LOG_LINE_SIZE,
        truncated(truncated(s)) == truncated(s),
        utf8_len(s) > MAX_LOG_LINE_SIZE ==> (exists|k: int|
            0 <= k <= s.len() && truncated(s) == s.take(k) + TRUNCATION_SUFFIX@),
{
    if utf8_len(s) > MAX_LOG_LINE_SIZE {
        let limit = MAX_LOG_LINE_SIZE - TRUNCATION_SUFFIX_LEN;
        assert(s.take(0) =~= Seq::<char>::empty());
        assert(encode_utf8(Seq::<char>::empty()) =~= Seq::<u8>::empty());
        lemma_fitting_prefix(s, limit as int, 0);
        let k = fitting_prefix(s, limit as int, 0);
        lemma_utf8_len_concat(s.take(k), TRUNCATION_SUFFIX@);
        lemma_suffix_len();
    }
}

/// The UTF-8 encoding of two texts one after the other.
pub proof fn lemma_utf8_len_concat(a: Seq<char>, b: Seq<char>)
    ensures
        utf8_len(a + b) == utf8_len(a) + utf8_len(b),
    decreases b.len(),
{
    if b.len() == 0 {
        assert(a + b =~= a);
        assert(encode_utf8(b) =~= Seq::<u8>::empty());
    } else {
        lemma_utf8_len_concat(a, b.drop_last());
        assert(a + b =~= (a + b.drop_last()).push(b.last()));
        assert(b =~= b.drop_last().push(b.last()));
        lemma_utf8_len_push(a + b.drop_last(), b.last());
        lemma_utf8_len_push(b.drop_last(), b.last());
    }
}

proof fn lemma_suffix_len()
    ensures
        utf8_len(TRUNCATION_SUFFIX@) == TRUNCATION_SUFFIX_LEN,
{
    reveal_strlit(" ... [truncated]");
    assert(vstd::utf8::is_ascii_chars(TRUNCATION_SUFFIX@));
    vstd::utf8::is_ascii_chars_encode_utf8(TRUNCATION_SUFFIX@);
}

/// Removing the line ending leaves no line ending behind, and doing it twice
/// is the same as doing it once.
pub proof fn line_ending_removal_is_complete(s: Seq<char>)
    ensures
        without_line_ending(s).len() > 0 ==> without_line_ending(s).last() != '\n'
            && without_line_ending(s).last() != '\r',
        without_line_ending(without_line_ending(s)) == without_line_ending(s),
    decreases s.len(),
{
    if s.len() > 0 && (s.last() == '\n' || s.last() == '\r') {
        line_ending_removal_is_complete(s.drop_last());
    }
}

/// Tailing never continues from beyond the end of the file: after a poll of
/// a readable file the offset is at most its length, new bytes are read
/// exactly when the file is longer than that offset, and a shorter file is
/// read again from its start.
pub proof fn tailing_never_reads_past_the_end(offset: u64, len: u64)
    ensures
        tail_step_spec(offset, Some(len)).offset <= len,
        tail_step_spec(offset, Some(len)).read == (len > tail_step_spec(offset, Some(len)).offset),
        len < offset ==> tail_step_spec(offset, Some(len)).offset == 0,
        len >= offset ==> tail_step_spec(offset, Some(len)).offset == offset,
{
}

// ---------------------------------------------------------------------------
// Keys
// ---------------------------------------------------------------------------

/// Pressing `w` (line wrap) or `t` (relative timestamps) twice in normal mode
/// gives back the state before, apart from the export message, which any key
/// press clears.
pub proof fn toggle_keys_undo_themselves(o: AppView, m: AppView, n: AppView, c: char, k1: KeyOutcome, k2: KeyOutcome)
    requires
        c == 'w' || c == 't',
        o.input_mode == InputMode::Normal,
        key_effect(o, m, KeyEvent { code: KeyCode::Char(c), kind: KeyEventKind::Press }, k1),
        key_effect(m, n, KeyEvent { code: KeyCode::Char(c), kind: KeyEventKind::Press }, k2),
    ensures
        n == (AppView { last_export_message: None, ..o }),
        k1 == KeyOutcome::Done && k2 == KeyOutcome::Done,
{
}

/// Key repeats and releases change nothing.
pub proof fn only_key_presses_act(o: AppView, n: AppView, key: KeyEvent, out: KeyOutcome)
    requires
        key.kind != KeyEventKind::Press,
        key_effect(o, n, key, out),
    ensures
        n == o,
        out == KeyOutcome::Done,
{
}

/// The filter input stays within `MAX_INPUT_BUFFER_SIZE` characters whatever
/// key is handled, and a character typed while editing is appended exactly
/// when the input is not full (a full input is left as it was).
pub proof fn keys_keep_the_input_bounded(o: AppView, n: AppView, key: KeyEvent, out: KeyOutcome)
    requires
        o.input_buffer.len() <= MAX_INPUT_BUFFER_SIZE,
        key_effect(o, n, key, out),
    ensures
        n.input_buffer.len() <= MAX_INPUT_BUFFER_SIZE,
        key.kind == KeyEventKind::Press && o.input_mode == InputMode::Editing ==> match key.code {
            KeyCode::Char(c) => n.input_buffer == typed(o.input_buffer, c),
            _ => true,
        },
{
}

/// Key presses move between the modes as the key table says: `/` starts
/// editing, `Enter` and `Esc` end it, every other key keeps the mode; and
/// `Esc`, in either mode, empties the filter input and follows the end of the log.
pub proof fn keys_switch_modes(o: AppView, n: AppView, key: KeyEvent, out: KeyOutcome)
    requires
        key.kind == KeyEventKind::Press,
        key_effect(o, n, key, out),
    ensures
        n.input_mode == (if o.input_mode == InputMode::Normal && key.code == KeyCode::Char('/') {
            InputMode::Editing
        } else if o.input_mode == InputMode::Editing && (key.code == KeyCode::Enter || key.code
            == KeyCode::Esc) {
            InputMode::Normal
        } else {
            o.input_mode
        }),
        key.code == KeyCode::Esc ==> n.input_buffer.len() == 0 && n.auto_scroll,
{
}

/// In normal mode the scrolling keys act as the scrolling methods do, after
/// the export message is cleared: up and `k` as `scroll_up`, down and `j` as
/// `scroll_down`, the page keys as `scroll_up_by` and `scroll_down_by` with the
/// visible height, `Home` and `g` as `scroll_to_top`, `End` and `G` as
/// `scroll_to_bottom`.
pub proof fn scroll_keys_act_as_scroll_methods(o: AppView, n: AppView, key: KeyEvent, out: KeyOutcome)
    requires
        key.kind == KeyEventKind::Press,
        o.input_mode == InputMode::Normal,
        key_effect(o, n, key, out),
    ensures
        ({
            let c = AppView { last_export_message: None, ..o };
            &&& (key.code == KeyCode::Up || key.code == KeyCode::Char('k')) ==> n == (AppView {
                scroll: sat_dec(c.scroll as int) as usize,
                auto_scroll: false,
                ..c
            })
            &&& (key.code == KeyCode::Down || key.code == KeyCode::Char('j')) ==> n == (AppView {
                scroll: scrolled_down(c.scroll as int, max_scroll_of(c)) as usize,
                ..c
            })
            &&& key.code == KeyCode::PageUp ==> n == (AppView {
                scroll: scrolled_up_by(c.scroll as int, c.visible_height as int) as usize,
                auto_scroll: false,
                ..c
            })
            &&& key.code == KeyCode::PageDown ==> n == (AppView {
                scroll: scrolled_down_by(c.scroll as int, c.visible_height as int, max_scroll_of(c))
                    as usize,
                ..c
            })
            &&& (key.code == KeyCode::Home || key.code == KeyCode::Char('g')) ==> n == (AppView {
                scroll: 0,
                auto_scroll: false,
                ..c
            })
            &&& (key.code == KeyCode::End || key.code == KeyCode::Char('G')) ==> n == (AppView {
                scroll: max_scroll_of(c) as usize,
                auto_scroll: true,
                ..c
            })
        }),
{
}

} // verus!

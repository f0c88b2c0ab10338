//! Properties of what the viewer reads and writes as text: the export file,
//! the timestamp formats and fields, the level keywords and the highlighting
//! of search matches.

use vstd::prelude::*;

use crate::app::export_text;
use crate::json::{json_field, JsonFieldView};
use crate::parser::{
    json_level, json_timestamp_allows, level_from_word, plain_level, timestamp_field, LogEntry, LogLevel,
    TIMESTAMP_FIELD_COUNT,
};
use crate::text::{contains_seq, decimal, lowercase, occurs_at};
use crate::theme::Theme;
use crate::view::{
    fg_style, highlight_style, lemma_next_match, level_color, next_match, segments, styled_entry,
    styled_segments, SpanStyle,
};
use crate::timestamp::{
    first_naive_parse, first_offset_instant, naive_format, naive_parsed, offset_format,
    offset_format_instant, relative_label, rfc3339_instant, timestamp_text_allows, within_a_day_of,
    Timestamp,
    NAIVE_FORMAT_COUNT, OFFSET_FORMAT_COUNT,
};

verus! {

// ---------------------------------------------------------------------------
// Export file
// ---------------------------------------------------------------------------

/// The export of no entry is a comment line; the export of one entry is its
/// text, after `[source] ` when it has a source; and adding an entry to a
/// non-empty export appends a line break and that entry's text, whatever its
/// position.
pub proof fn export_writes_every_entry(es: Seq<LogEntry>, e: LogEntry)
    ensures
        export_text(Seq::empty()) == "# No log entries matched the current filter.\n"@,
        export_text(seq![e]) == match e.source {
            Some(src) => "["@ + src@ + "] "@ + e.pretty@,
            None => e.pretty@,
        },
        es.len() > 0 ==> export_text(es.push(e)) == export_text(es) + "\n"@ + match e.source {
            Some(src) => "["@ + src@ + "] "@ + e.pretty@,
            None => e.pretty@,
        },
{
    assert(es.push(e).drop_last() =~= es);
    assert(es.push(e).last() == e);
}

// ---------------------------------------------------------------------------
// Level keywords
// ---------------------------------------------------------------------------

/// A plain-text line (lower-cased) is an error exactly when it mentions
/// `error` or `fatal`; otherwise a warning exactly when it mentions `warn`;
/// otherwise info exactly when it mentions `info`; otherwise debug exactly
/// when it mentions `debug` or `trace`; otherwise its level is unknown.
pub proof fn plain_text_levels_follow_keywords(l: Seq<char>)
    ensures
        (plain_level(l) == LogLevel::Error) == (contains_seq(l, "error"@) || contains_seq(l, "fatal"@)),
        (plain_level(l) == LogLevel::Warn) == (!contains_seq(l, "error"@) && !contains_seq(l, "fatal"@)
            && contains_seq(l, "warn"@)),
        (plain_level(l) == LogLevel::Info) == (!contains_seq(l, "error"@) && !contains_seq(l, "fatal"@)
            && !contains_seq(l, "warn"@) && contains_seq(l, "info"@)),
        (plain_level(l) == LogLevel::Debug) == (!contains_seq(l, "error"@) && !contains_seq(
            l,
            "fatal"@,
        ) && !contains_seq(l, "warn"@) && !contains_seq(l, "info"@) && (contains_seq(l, "debug"@)
            || contains_seq(l, "trace"@))),
{
}

/// The level words of JSON logs (lower-cased): `error`, `err` and `fatal` are
/// errors, `warn` and `warning` warnings, `info` and `information` info,
/// `debug` and `trace` debug, and any other word is unknown.
pub proof fn json_level_words(w: Seq<char>)
    ensures
        (level_from_word(w) == LogLevel::Error) == (w == "error"@ || w == "err"@ || w == "fatal"@),
        (level_from_word(w) == LogLevel::Warn) == (w == "warn"@ || w == "warning"@),
        (level_from_word(w) == LogLevel::Info) == (w == "info"@ || w == "information"@),
        (level_from_word(w) == LogLevel::Debug) == (w == "debug"@ || w == "trace"@),
{
    reveal_strlit("error");
    reveal_strlit("err");
    reveal_strlit("fatal");
    reveal_strlit("warn");
    reveal_strlit("warning");
    reveal_strlit("info");
    reveal_strlit("information");
    reveal_strlit("debug");
    reveal_strlit("trace");
    let words = seq!["error"@, "err"@, "fatal"@, "warn"@, "warning"@, "info"@, "information"@, "debug"@, "trace"@];
    assert forall|a: int, b: int| 0 <= a < b < 9 implies #[trigger] words[a] != #[trigger] words[b] by {
        if words[a].len() == words[b].len() {
            assert(words[a][0] != words[b][0]);
        }
    }
    assert(words[0] == "error"@ && words[1] == "err"@ && words[2] == "fatal"@ && words[3] == "warn"@);
    assert(words[4] == "warning"@ && words[5] == "info"@ && words[6] == "information"@);
    assert(words[7] == "debug"@ && words[8] == "trace"@);
}

/// The level of a JSON log is read from the first of the fields `level`,
/// `severity`, `lvl` that is present: from its lower-cased word when it holds
/// a string, and unknown when it holds anything else; a log with none of
/// these fields has an unknown level.
pub proof fn json_level_fields_in_order(v: serde_json::Value)
    ensures
        json_field(v, "level"@) matches JsonFieldView::Text(w) ==> json_level(v) == level_from_word(
            lowercase(w),
        ),
        !(json_field(v, "level"@) is Missing) && !(json_field(v, "level"@) is Text) ==> json_level(v)
            == LogLevel::Unknown,
        json_field(v, "level"@) is Missing ==> (json_field(v, "severity"@) matches JsonFieldView::Text(
            w,
        ) ==> json_level(v) == level_from_word(lowercase(w))),
        json_field(v, "level"@) is Missing && !(json_field(v, "severity"@) is Missing) && !(json_field(
            v,
            "severity"@,
        ) is Text) ==> json_level(v) == LogLevel::Unknown,
        json_field(v, "level"@) is Missing && json_field(v, "severity"@) is Missing ==> (json_field(
            v,
            "lvl"@,
        ) matches JsonFieldView::Text(w) ==> json_level(v) == level_from_word(lowercase(w))),
        json_field(v, "level"@) is Missing && json_field(v, "severity"@) is Missing && !(json_field(
            v,
            "lvl"@,
        ) is Text) ==> json_level(v) == LogLevel::Unknown,
{
}

// ---------------------------------------------------------------------------
// Relative time
// ---------------------------------------------------------------------------

/// The relative-time label of an entry `secs` seconds old: `future` for a
/// negative age, whole seconds under a minute, whole minutes under an hour,
/// whole hours under a day, and whole days beyond.
pub proof fn relative_time_labels(secs: int)
    ensures
        secs < 0 ==> relative_label(secs) == "future"@,
        0 <= secs < 60 ==> relative_label(secs) == decimal(secs as nat) + "s ago"@,
        60 <= secs < 3600 ==> relative_label(secs) == decimal((secs / 60) as nat) + "m ago"@,
        3600 <= secs < 86400 ==> relative_label(secs) == decimal((secs / 3600) as nat) + "h ago"@,
        86400 <= secs ==> relative_label(secs) == decimal((secs / 86400) as nat) + "d ago"@,
{
}

// ---------------------------------------------------------------------------
// Timestamp fields and formats
// ---------------------------------------------------------------------------

/// The fields of a JSON log consulted for its timestamp, in order.
pub open spec fn consulted_timestamp_fields() -> Seq<Seq<char>> {
    seq!["timestamp"@, "ts"@, "time"@, "@timestamp"@, "datetime"@, "date"@]
}

proof fn lemma_timestamp_fields()
    ensures
        TIMESTAMP_FIELD_COUNT == consulted_timestamp_fields().len(),
        forall|j: int|
            0 <= j < TIMESTAMP_FIELD_COUNT ==> #[trigger] timestamp_field(j)
                == consulted_timestamp_fields()[j],
{
    assert forall|j: int| 0 <= j < TIMESTAMP_FIELD_COUNT implies #[trigger] timestamp_field(j)
        == consulted_timestamp_fields()[j] by {
        if j == 0 {
        } else if j == 1 {
        } else if j == 2 {
        } else if j == 3 {
        } else if j == 4 {
        } else {
        }
    }
}

/// Fields that are absent are skipped.
proof fn lemma_skip_absent_fields<F: Fn(&serde_json::Number) -> Option<Timestamp>>(
    v: serde_json::Value,
    epoch: F,
    r: Option<Timestamp>,
    k: int,
)
    requires
        0 <= k <= TIMESTAMP_FIELD_COUNT,
        json_timestamp_allows(v, epoch, 0, r),
        forall|j: int| 0 <= j < k ==> #[trigger] json_field(v, timestamp_field(j)) is Missing,
    ensures
        json_timestamp_allows(v, epoch, k, r),
    decreases k,
{
    if k > 0 {
        lemma_skip_absent_fields(v, epoch, r, k - 1);
        assert(json_field(v, timestamp_field(k - 1)) is Missing);
        let p = choose|p: Option<Timestamp>|
            #[trigger] crate::parser::field_timestamp_allows(json_field(v, timestamp_field(k - 1)), epoch, p)
                && (p is Some ==> r == p) && (p is None ==> json_timestamp_allows(v, epoch, k, r));
        assert(p is None);
    }
}

/// The timestamp of a JSON log comes from the first of the fields
/// `timestamp`, `ts`, `time`, `@timestamp`, `datetime`, `date` that is
/// present: when it holds an RFC 3339 text, that instant is the timestamp;
/// and a log with none of these fields has no timestamp.
pub proof fn json_timestamp_fields_in_order<F: Fn(&serde_json::Number) -> Option<Timestamp>>(
    v: serde_json::Value,
    epoch: F,
    r: Option<Timestamp>,
    k: int,
)
    requires
        json_timestamp_allows(v, epoch, 0, r),
        0 <= k < consulted_timestamp_fields().len(),
        forall|j: int|
            0 <= j < k ==> #[trigger] json_field(v, consulted_timestamp_fields()[j]) is Missing,
    ensures
        json_field(v, consulted_timestamp_fields()[k]) matches JsonFieldView::Text(t)
            ==> (rfc3339_instant(t) is Some ==> r == rfc3339_instant(t)),
        json_field(v, consulted_timestamp_fields()[k]) matches JsonFieldView::Number(n) ==> exists|
            o: Option<Timestamp>,
        | #[trigger] call_ensures(epoch, (&n,), o) && (o is Some ==> r == o),
        (forall|j: int|
            0 <= j < consulted_timestamp_fields().len() ==> #[trigger] json_field(
                v,
                consulted_timestamp_fields()[j],
            ) is Missing) ==> r is None,
{
    lemma_timestamp_fields();
    assert forall|j: int| 0 <= j < k implies #[trigger] json_field(v, timestamp_field(j)) is Missing by {
        assert(json_field(v, consulted_timestamp_fields()[j]) is Missing);
    }
    lemma_skip_absent_fields(v, epoch, r, k);
    if let JsonFieldView::Text(t) = json_field(v, consulted_timestamp_fields()[k]) {
        if rfc3339_instant(t) is Some {
            assert(timestamp_field(k) == consulted_timestamp_fields()[k]);
            let p = choose|p: Option<Timestamp>|
                #[trigger] crate::parser::field_timestamp_allows(json_field(v, timestamp_field(k)), epoch, p)
                    && (p is Some ==> r == p) && (p is None ==> json_timestamp_allows(
                    v,
                    epoch,
                    k + 1,
                    r,
                ));
            assert(p == rfc3339_instant(t));
        }
    }
    if forall|j: int|
        0 <= j < consulted_timestamp_fields().len() ==> #[trigger] json_field(
            v,
            consulted_timestamp_fields()[j],
        ) is Missing {
        assert forall|j: int| 0 <= j < TIMESTAMP_FIELD_COUNT implies #[trigger] json_field(
            v,
            timestamp_field(j),
        ) is Missing by {
            assert(json_field(v, consulted_timestamp_fields()[j]) is Missing);
        }
        lemma_skip_absent_fields(v, epoch, r, TIMESTAMP_FIELD_COUNT as int);
    }
}

/// The formats with an offset tried after RFC 3339, in order.
pub open spec fn offset_formats() -> Seq<Seq<char>> {
    seq![
        "%Y-%m-%dT%H:%M:%S%.f%:z"@,
        "%Y-%m-%dT%H:%M:%S%:z"@,
        "%Y-%m-%dT%H:%M:%S%.f%z"@,
        "%Y-%m-%dT%H:%M:%S%z"@,
    ]
}

/// The formats without offset (read as local time) tried last, in order.
pub open spec fn local_formats() -> Seq<Seq<char>> {
    seq![
        "%Y-%m-%dT%H:%M:%S%.f"@,
        "%Y-%m-%dT%H:%M:%S"@,
        "%Y-%m-%d %H:%M:%S%.f"@,
        "%Y-%m-%d %H:%M:%S"@,
        "%Y/%m/%d %H:%M:%S%.f"@,
        "%Y/%m/%d %H:%M:%S"@,
    ]
}

proof fn lemma_format_lists()
    ensures
        OFFSET_FORMAT_COUNT == offset_formats().len(),
        NAIVE_FORMAT_COUNT == local_formats().len(),
        forall|j: int| 0 <= j < OFFSET_FORMAT_COUNT ==> #[trigger] offset_format(j) == offset_formats()[j],
        forall|j: int| 0 <= j < NAIVE_FORMAT_COUNT ==> #[trigger] naive_format(j) == local_formats()[j],
{
    assert forall|j: int| 0 <= j < OFFSET_FORMAT_COUNT implies #[trigger] offset_format(j)
        == offset_formats()[j] by {
        if j == 0 {
        } else if j == 1 {
        } else if j == 2 {
        } else {
        }
    }
    assert forall|j: int| 0 <= j < NAIVE_FORMAT_COUNT implies #[trigger] naive_format(j)
        == local_formats()[j] by {
        if j == 0 {
        } else if j == 1 {
        } else if j == 2 {
        } else if j == 3 {
        } else if j == 4 {
        } else {
        }
    }
}

proof fn lemma_skip_offset_formats(s: Seq<char>, k: int)
    requires
        0 <= k <= OFFSET_FORMAT_COUNT,
        forall|j: int| 0 <= j < k ==> #[trigger] offset_format_instant(s, offset_format(j)) is None,
    ensures
        first_offset_instant(s, 0) == first_offset_instant(s, k),
    decreases k,
{
    if k > 0 {
        lemma_skip_offset_formats(s, k - 1);
        assert(offset_format_instant(s, offset_format(k - 1)) is None);
    }
}

proof fn lemma_skip_local_formats(s: Seq<char>, k: int)
    requires
        0 <= k <= NAIVE_FORMAT_COUNT,
        forall|j: int| 0 <= j < k ==> #[trigger] naive_parsed(s, naive_format(j)) is None,
    ensures
        first_naive_parse(s, 0) == first_naive_parse(s, k),
    decreases k,
{
    if k > 0 {
        lemma_skip_local_formats(s, k - 1);
        assert(naive_parsed(s, naive_format(k - 1)) is None);
    }
}

/// A timestamp text is read by the first of these that accepts it: RFC 3339;
/// then the formats with an offset, in order; then the formats without one,
/// in order, read as local time (an instant less than a day from the
/// date-time read as UTC, with its nanoseconds, or none when that local time
/// does not exist). A text that none of them accepts gives no timestamp.
pub proof fn timestamp_formats_in_order(s: Seq<char>, r: Option<Timestamp>, k: int)
    requires
        timestamp_text_allows(s, r),
    ensures
        rfc3339_instant(s) is Some ==> r == rfc3339_instant(s),
        rfc3339_instant(s) is None && 0 <= k < offset_formats().len() && (forall|j: int|
            0 <= j < k ==> #[trigger] offset_format_instant(s, offset_formats()[j]) is None)
            && offset_format_instant(s, offset_formats()[k]) is Some ==> r == offset_format_instant(
            s,
            offset_formats()[k],
        ),
        rfc3339_instant(s) is None && (forall|j: int|
            0 <= j < offset_formats().len() ==> #[trigger] offset_format_instant(
                s,
                offset_formats()[j],
            ) is None) && 0 <= k < local_formats().len() && (forall|j: int|
            0 <= j < k ==> #[trigger] naive_parsed(s, local_formats()[j]) is None) && naive_parsed(
            s,
            local_formats()[k],
        ) is Some ==> r is None || within_a_day_of(r->Some_0, naive_parsed(s, local_formats()[k])->Some_0),
        rfc3339_instant(s) is None && (forall|j: int|
            0 <= j < offset_formats().len() ==> #[trigger] offset_format_instant(
                s,
                offset_formats()[j],
            ) is None) && (forall|j: int|
            0 <= j < local_formats().len() ==> #[trigger] naive_parsed(s, local_formats()[j]) is None)
            ==> r is None,
{
    lemma_format_lists();
    if rfc3339_instant(s) is None {
        if 0 <= k < offset_formats().len() && (forall|j: int|
            0 <= j < k ==> #[trigger] offset_format_instant(s, offset_formats()[j]) is None) {
            assert forall|j: int| 0 <= j < k implies #[trigger] offset_format_instant(s, offset_format(j))
                is None by {
                assert(offset_format_instant(s, offset_formats()[j]) is None);
            }
            lemma_skip_offset_formats(s, k);
            assert(offset_format(k) == offset_formats()[k]);
        }
        if forall|j: int|
            0 <= j < offset_formats().len() ==> #[trigger] offset_format_instant(
                s,
                offset_formats()[j],
            ) is None {
            assert forall|j: int| 0 <= j < OFFSET_FORMAT_COUNT implies #[trigger] offset_format_instant(
                s,
                offset_format(j),
            ) is None by {
                assert(offset_format_instant(s, offset_formats()[j]) is None);
            }
            lemma_skip_offset_formats(s, OFFSET_FORMAT_COUNT as int);
            assert(first_offset_instant(s, 0) is None);
            if 0 <= k < local_formats().len() && (forall|j: int|
                0 <= j < k ==> #[trigger] naive_parsed(s, local_formats()[j]) is None) {
                assert forall|j: int| 0 <= j < k implies #[trigger] naive_parsed(s, naive_format(j))
                    is None by {
                    assert(naive_parsed(s, local_formats()[j]) is None);
                }
                lemma_skip_local_formats(s, k);
                assert(naive_format(k) == local_formats()[k]);
            }
            if forall|j: int|
                0 <= j < local_formats().len() ==> #[trigger] naive_parsed(s, local_formats()[j])
                    is None {
                assert forall|j: int| 0 <= j < NAIVE_FORMAT_COUNT implies #[trigger] naive_parsed(
                    s,
                    naive_format(j),
                ) is None by {
                    assert(naive_parsed(s, local_formats()[j]) is None);
                }
                lemma_skip_local_formats(s, NAIVE_FORMAT_COUNT as int);
            }
        }
    }
}

// ---------------------------------------------------------------------------
// Highlighting
// ---------------------------------------------------------------------------

/// Where the `k`-th piece of a styled line starts in its text: the total
/// length of the pieces before it.
pub open spec fn piece_start(pieces: Seq<(Seq<char>, SpanStyle)>, k: int) -> int
    decreases k,
{
    if k <= 0 || k > pieces.len() {
        0
    } else {
        piece_start(pieces, k - 1) + pieces[k - 1].0.len()
    }
}

proof fn lemma_piece_start_concat(
    a: Seq<(Seq<char>, SpanStyle)>,
    b: Seq<(Seq<char>, SpanStyle)>,
    k: int,
)
    requires
        0 <= k <= a.len() + b.len(),
    ensures
        piece_start(a + b, k) == if k <= a.len() {
            piece_start(a, k)
        } else {
            piece_start(a, a.len() as int) + piece_start(b, k - a.len())
        },
    decreases k,
{
    if k > 0 {
        lemma_piece_start_concat(a, b, k - 1);
        assert(piece_start(a + b, k) == piece_start(a + b, k - 1) + (a + b)[k - 1].0.len());
        if k <= a.len() {
            assert((a + b)[k - 1] == a[k - 1]);
            assert(piece_start(a, k) == piece_start(a, k - 1) + a[k - 1].0.len());
        } else {
            assert((a + b)[k - 1] == b[k - 1 - a.len()]);
            assert(piece_start(b, k - a.len()) == piece_start(b, k - a.len() - 1) + b[k - a.len()
                - 1].0.len());
        }
    }
}

/// The pieces tile `content[from..to]`.
#[verifier::opaque]
spec fn tiles(pieces: Seq<(Seq<char>, SpanStyle)>, content: Seq<char>, from: int, to: int) -> bool {
    &&& from + piece_start(pieces, pieces.len() as int) == to
    &&& forall|k: int|
        0 <= k < pieces.len() ==> (#[trigger] pieces[k]).0 == content.subrange(
            from + piece_start(pieces, k),
            from + piece_start(pieces, k + 1),
        )
}

/// Highlighted pieces (placed from `from`) are occurrences of the query.
#[verifier::opaque]
spec fn marks_matches(
    pieces: Seq<(Seq<char>, SpanStyle)>,
    lower: Seq<char>,
    q: Seq<char>,
    from: int,
    hl: SpanStyle,
) -> bool {
    forall|k: int|
        0 <= k < pieces.len() && (#[trigger] pieces[k]).1 == hl ==> occurs_at(
            lower,
            q,
            from + piece_start(pieces, k),
        ) && pieces[k].0.len() == q.len()
}

/// The other pieces (placed from `from`) are in the base style and hold no occurrence.
#[verifier::opaque]
spec fn marks_rest(
    pieces: Seq<(Seq<char>, SpanStyle)>,
    lower: Seq<char>,
    q: Seq<char>,
    from: int,
    base: SpanStyle,
    hl: SpanStyle,
) -> bool {
    forall|k: int|
        0 <= k < pieces.len() && (#[trigger] pieces[k]).1 != hl ==> pieces[k].1 == base && forall|
            p: int,
        |
            from + piece_start(pieces, k) <= p && p + q.len() <= from + piece_start(pieces, k + 1)
                ==> !#[trigger] occurs_at(lower, q, p)
}

proof fn use_marks_rest(
    pieces: Seq<(Seq<char>, SpanStyle)>,
    lower: Seq<char>,
    q: Seq<char>,
    from: int,
    base: SpanStyle,
    hl: SpanStyle,
    k: int,
    p: int,
)
    requires
        marks_rest(pieces, lower, q, from, base, hl),
        0 <= k < pieces.len(),
        pieces[k].1 != hl,
    ensures
        pieces[k].1 == base,
        from + piece_start(pieces, k) <= p && p + q.len() <= from + piece_start(pieces, k + 1)
            ==> !occurs_at(lower, q, p),
{
    reveal(marks_rest);
    assert(pieces[k].1 != hl);
}

/// Where the pieces of `a + b` start, from where those of `a` and of `b` start.
proof fn lemma_piece_starts(a: Seq<(Seq<char>, SpanStyle)>, b: Seq<(Seq<char>, SpanStyle)>)
    ensures
        forall|k: int|
            0 <= k <= a.len() + b.len() ==> #[trigger] piece_start(a + b, k) == if k <= a.len() {
                piece_start(a, k)
            } else {
                piece_start(a, a.len() as int) + piece_start(b, k - a.len())
            },
{
    assert forall|k: int| 0 <= k <= a.len() + b.len() implies #[trigger] piece_start(a + b, k) == if k
        <= a.len() {
        piece_start(a, k)
    } else {
        piece_start(a, a.len() as int) + piece_start(b, k - a.len())
    } by {
        lemma_piece_start_concat(a, b, k);
    }
}

proof fn use_tiles(pieces: Seq<(Seq<char>, SpanStyle)>, content: Seq<char>, from: int, to: int, k: int)
    requires
        tiles(pieces, content, from, to),
        0 <= k < pieces.len(),
    ensures
        pieces[k].0 == content.subrange(from + piece_start(pieces, k), from + piece_start(pieces, k + 1)),
        from + piece_start(pieces, pieces.len() as int) == to,
{
    reveal(tiles);
}

proof fn lemma_concat_tiles(
    a: Seq<(Seq<char>, SpanStyle)>,
    b: Seq<(Seq<char>, SpanStyle)>,
    content: Seq<char>,
    from: int,
    mid: int,
    to: int,
)
    requires
        tiles(a, content, from, mid),
        tiles(b, content, mid, to),
    ensures
        tiles(a + b, content, from, to),
{
    let c = a + b;
    let an = a.len() as int;
    lemma_piece_starts(a, b);
    assert(from + piece_start(a, an) == mid) by {
        reveal(tiles);
    }
    assert(mid + piece_start(b, b.len() as int) == to) by {
        reveal(tiles);
    }
    assert(piece_start(c, c.len() as int) == piece_start(a, an) + piece_start(b, b.len() as int));
    assert forall|k: int| 0 <= k < c.len() implies (#[trigger] c[k]).0 == content.subrange(
        from + piece_start(c, k),
        from + piece_start(c, k + 1),
    ) by {
        assert(piece_start(c, k) == if k <= an {
            piece_start(a, k)
        } else {
            piece_start(a, an) + piece_start(b, k - an)
        });
        assert(piece_start(c, k + 1) == if k + 1 <= an {
            piece_start(a, k + 1)
        } else {
            piece_start(a, an) + piece_start(b, k + 1 - an)
        });
        if k < an {
            assert(c[k] == a[k]);
            use_tiles(a, content, from, mid, k);
        } else {
            assert(c[k] == b[k - an]);
            use_tiles(b, content, mid, to, k - an);
        }
    }
    reveal(tiles);
}

proof fn use_marks_matches(
    pieces: Seq<(Seq<char>, SpanStyle)>,
    lower: Seq<char>,
    q: Seq<char>,
    from: int,
    hl: SpanStyle,
    k: int,
)
    requires
        marks_matches(pieces, lower, q, from, hl),
        0 <= k < pieces.len(),
        pieces[k].1 == hl,
    ensures
        occurs_at(lower, q, from + piece_start(pieces, k)) && pieces[k].0.len() == q.len(),
{
    reveal(marks_matches);
}

proof fn lemma_concat_matches(
    a: Seq<(Seq<char>, SpanStyle)>,
    b: Seq<(Seq<char>, SpanStyle)>,
    content: Seq<char>,
    lower: Seq<char>,
    q: Seq<char>,
    from: int,
    mid: int,
    hl: SpanStyle,
)
    requires
        tiles(a, content, from, mid),
        marks_matches(a, lower, q, from, hl),
        marks_matches(b, lower, q, mid, hl),
    ensures
        marks_matches(a + b, lower, q, from, hl),
{
    let c = a + b;
    let an = a.len() as int;
    lemma_piece_starts(a, b);
    assert(from + piece_start(a, an) == mid) by {
        reveal(tiles);
    }
    assert forall|k: int| 0 <= k < c.len() && (#[trigger] c[k]).1 == hl implies occurs_at(
        lower,
        q,
        from + piece_start(c, k),
    ) && c[k].0.len() == q.len() by {
        assert(piece_start(c, k) == if k <= an {
            piece_start(a, k)
        } else {
            piece_start(a, an) + piece_start(b, k - an)
        });
        if k < an {
            assert(c[k] == a[k]);
            use_marks_matches(a, lower, q, from, hl, k);
        } else {
            assert(c[k] == b[k - an]);
            use_marks_matches(b, lower, q, mid, hl, k - an);
        }
    }
    reveal(marks_matches);
}

proof fn lemma_concat_rest(
    a: Seq<(Seq<char>, SpanStyle)>,
    b: Seq<(Seq<char>, SpanStyle)>,
    content: Seq<char>,
    lower: Seq<char>,
    q: Seq<char>,
    from: int,
    mid: int,
    base: SpanStyle,
    hl: SpanStyle,
)
    requires
        tiles(a, content, from, mid),
        marks_rest(a, lower, q, from, base, hl),
        marks_rest(b, lower, q, mid, base, hl),
    ensures
        marks_rest(a + b, lower, q, from, base, hl),
{
    let c = a + b;
    let an = a.len() as int;
    lemma_piece_starts(a, b);
    assert(from + piece_start(a, an) == mid) by {
        reveal(tiles);
    }
    assert forall|k: int| 0 <= k < c.len() && (#[trigger] c[k]).1 != hl implies c[k].1 == base
        && forall|p: int|
        from + piece_start(c, k) <= p && p + q.len() <= from + piece_start(c, k + 1)
            ==> !#[trigger] occurs_at(lower, q, p) by {
        assert(piece_start(c, k + 1) == if k + 1 <= an {
            piece_start(a, k + 1)
        } else {
            piece_start(a, an) + piece_start(b, k + 1 - an)
        });
        if k < an {
            assert(c[k] == a[k]);
            assert(piece_start(c, k) == piece_start(a, k));
            assert forall|p: int|
                from + piece_start(c, k) <= p && p + q.len() <= from + piece_start(c, k + 1)
                implies !#[trigger] occurs_at(lower, q, p) by {
                use_marks_rest(a, lower, q, from, base, hl, k, p);
            }
            use_marks_rest(a, lower, q, from, base, hl, k, from + piece_start(a, k));
        } else {
            assert(c[k] == b[k - an]);
            assert(piece_start(c, k) == piece_start(a, an) + piece_start(b, k - an));
            assert forall|p: int|
                from + piece_start(c, k) <= p && p + q.len() <= from + piece_start(c, k + 1)
                implies !#[trigger] occurs_at(lower, q, p) by {
                use_marks_rest(b, lower, q, mid, base, hl, k - an, p);
            }
            use_marks_rest(b, lower, q, mid, base, hl, k - an, mid + piece_start(b, k - an));
        }
    }
    reveal(marks_rest);
}

/// One piece covering `content[from..to]`.
proof fn lemma_single_piece(
    x: (Seq<char>, SpanStyle),
    content: Seq<char>,
    from: int,
    to: int,
)
    requires
        0 <= from <= to <= content.len(),
        x.0 == content.subrange(from, to),
    ensures
        tiles(seq![x], content, from, to),
{
    reveal(tiles);
    let c = seq![x];
    assert(piece_start(c, 0) == 0);
    assert(piece_start(c, 1) == to - from);
}

/// The pieces of the segments from `start` on tile the text from `start`;
/// highlighted pieces are occurrences of the query, and no other piece holds one.
proof fn lemma_pieces(
    content: Seq<char>,
    lower: Seq<char>,
    q: Seq<char>,
    start: int,
    base: SpanStyle,
    hl: SpanStyle,
)
    requires
        lower.len() == content.len(),
        q.len() > 0,
        0 <= start <= content.len(),
        base != hl,
    ensures
        tiles(styled_segments(segments(content, lower, q, start), base, hl), content, start, content.len() as int),
        marks_matches(styled_segments(segments(content, lower, q, start), base, hl), lower, q, start, hl),
        marks_rest(styled_segments(segments(content, lower, q, start), base, hl), lower, q, start, base, hl),
    decreases lower.len() + 1 - start,
{
    let segs = segments(content, lower, q, start);
    let pieces = styled_segments(segs, base, hl);
    if start >= content.len() {
        assert(pieces.len() == 0);
        reveal(tiles);
        reveal(marks_matches);
        reveal(marks_rest);
        assert(piece_start(pieces, 0) == 0);
    } else {
        let p = next_match(lower, q, start);
        lemma_next_match(lower, q, start);
        if p < 0 {
            let x = (content.subrange(start, content.len() as int), base);
            assert(pieces =~= seq![x]);
            lemma_single_piece(x, content, start, content.len() as int);
            reveal(marks_matches);
            reveal(marks_rest);
            assert(piece_start(pieces, 0) == 0);
            assert(piece_start(pieces, 1) == content.len() - start);
        } else {
            let m = p + q.len();
            let before: Seq<(Seq<char>, bool)> = if p > start {
                seq![(content.subrange(start, p), false)]
            } else {
                seq![]
            };
            let mid: Seq<(Seq<char>, bool)> = seq![(content.subrange(p, m), true)];
            let rest_segs = segments(content, lower, q, m);
            assert(segs == before + mid + rest_segs);
            let b = styled_segments(before, base, hl);
            let x = (content.subrange(p, m), hl);
            let md = seq![x];
            let rest = styled_segments(rest_segs, base, hl);
            assert(pieces =~= b + (md + rest));
            lemma_pieces(content, lower, q, m, base, hl);
            lemma_single_piece(x, content, p, m);
            assert(marks_matches(md, lower, q, p, hl)) by {
                reveal(marks_matches);
                assert(piece_start(md, 0) == 0);
            }
            assert(marks_rest(md, lower, q, p, base, hl)) by {
                reveal(marks_rest);
            }
            if p > start {
                let y = (content.subrange(start, p), base);
                assert(b =~= seq![y]);
                lemma_single_piece(y, content, start, p);
                assert(piece_start(b, 0) == 0);
                assert(piece_start(b, 1) == p - start);
            } else {
                assert(b =~= Seq::<(Seq<char>, SpanStyle)>::empty());
                assert(tiles(b, content, start, p)) by {
                    reveal(tiles);
                    assert(piece_start(b, 0) == 0);
                }
            }
            assert(marks_matches(b, lower, q, start, hl)) by {
                reveal(marks_matches);
            }
            assert(marks_rest(b, lower, q, start, base, hl)) by {
                reveal(marks_rest);
                assert(piece_start(b, 0) == 0);
                assert(b.len() > 0 ==> piece_start(b, 1) == p - start);
            }
            lemma_concat_tiles(md, rest, content, p, m, content.len() as int);
            lemma_concat_matches(md, rest, content, lower, q, p, m, hl);
            lemma_concat_rest(md, rest, content, lower, q, p, m, base, hl);
            lemma_concat_tiles(b, md + rest, content, start, p, content.len() as int);
            lemma_concat_matches(b, md + rest, content, lower, q, start, p, hl);
            lemma_concat_rest(b, md + rest, content, lower, q, start, p, base, hl);
        }
    }
}

/// Highlighting marks every match: the pieces of a styled entry tile its
/// text; each highlighted piece is a case-insensitive occurrence of the
/// query; and no other piece, all in the color of the entry's level, holds
/// an occurrence of the query anywhere, on any line of the text. When the
/// query is empty, or lower-casing changes the length of the text, the whole
/// text is one piece in the level's color.
pub proof fn highlighting_marks_every_occurrence(e: LogEntry, query: Seq<char>, theme: Theme)
    ensures
        ({
            let content = e.pretty@;
            let lower = lowercase(content);
            let q = lowercase(query);
            let base = fg_style(level_color(theme, e.level));
            let hl = highlight_style(theme);
            let pieces = styled_entry(e, query, theme);
            if query.len() == 0 || content.len() != lower.len() || q.len() == 0 {
                pieces == seq![(content, base)]
            } else {
                &&& piece_start(pieces, pieces.len() as int) == content.len()
                &&& forall|k: int|
                    0 <= k < pieces.len() ==> (#[trigger] pieces[k]).0 == content.subrange(
                        piece_start(pieces, k),
                        piece_start(pieces, k + 1),
                    )
                &&& forall|k: int|
                    0 <= k < pieces.len() && (#[trigger] pieces[k]).1 == hl ==> occurs_at(
                        lower,
                        q,
                        piece_start(pieces, k),
                    ) && pieces[k].0.len() == q.len()
                &&& forall|k: int|
                    0 <= k < pieces.len() && (#[trigger] pieces[k]).1 != hl ==> pieces[k].1 == base
                        && forall|p: int|
                        piece_start(pieces, k) <= p && p + q.len() <= piece_start(pieces, k + 1)
                            ==> !#[trigger] occurs_at(lower, q, p)
            }
        }),
{
    let content = e.pretty@;
    let lower = lowercase(content);
    let q = lowercase(query);
    let base = fg_style(level_color(theme, e.level));
    let hl = highlight_style(theme);
    if !(query.len() == 0 || content.len() != lower.len() || q.len() == 0) {
        assert(base != hl);
        lemma_pieces(content, lower, q, 0, base, hl);
        reveal(tiles);
        reveal(marks_matches);
        reveal(marks_rest);
        assert(styled_entry(e, query, theme) == styled_segments(segments(content, lower, q, 0), base, hl));
    }
}

} // verus!

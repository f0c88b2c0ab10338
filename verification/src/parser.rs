//! Log parsing: severity levels, JSON and plain-text log lines, timestamps.

use vstd::prelude::*;

use crate::json::{
    json_field, json_get_field, json_parse, json_parse_result, json_pretty, json_pretty_text,
    JsonField, JsonFieldView,
};
use crate::text::{chars_eq, chars_of, contains, contains_seq, lowercase, to_lowercase};
use crate::timestamp::{
    extract_plain_text_timestamp, parse_timestamp_str, plain_timestamp_allows,
    timestamp_text_allows, Timestamp,
};

verus! {

/// Log severity level.
#[derive(PartialEq, Eq, Debug, Clone, Copy, Structural)]
pub enum LogLevel {
    Error,
    Warn,
    Info,
    Debug,
    Unknown,
}

/// Numeric severity of a level (lower is more severe).
pub open spec fn severity_of(l: LogLevel) -> int {
    match l {
        LogLevel::Error => 0,
        LogLevel::Warn => 1,
        LogLevel::Info => 2,
        LogLevel::Debug => 3,
        LogLevel::Unknown => 4,
    }
}

/// The level filter that follows `l` in the cycle Error, Warn, Info, Debug, (none).
pub open spec fn next_filter_of(l: LogLevel) -> Option<LogLevel> {
    match l {
        LogLevel::Error => Some(LogLevel::Warn),
        LogLevel::Warn => Some(LogLevel::Info),
        LogLevel::Info => Some(LogLevel::Debug),
        LogLevel::Debug => None,
        LogLevel::Unknown => None,
    }
}

/// The display label of a level.
pub open spec fn label_of(l: LogLevel) -> Seq<char> {
    match l {
        LogLevel::Error => "ERROR"@,
        LogLevel::Warn => "WARN"@,
        LogLevel::Info => "INFO"@,
        LogLevel::Debug => "DEBUG"@,
        LogLevel::Unknown => "UNKNOWN"@,
    }
}

impl LogLevel {
    /// Returns a numeric severity for ordering (lower = more severe).
    pub fn severity(self) -> (r: u8)
        ensures
            r == severity_of(self),
    {
        match self {
            LogLevel::Error => 0,
            LogLevel::Warn => 1,
            LogLevel::Info => 2,
            LogLevel::Debug => 3,
            LogLevel::Unknown => 4,
        }
    }

    /// Cycles to the next level filter: Error → Warn → Info → Debug → None.
    pub fn next_filter(self) -> (r: Option<LogLevel>)
        ensures
            r == next_filter_of(self),
    {
        match self {
            LogLevel::Error => Some(LogLevel::Warn),
            LogLevel::Warn => Some(LogLevel::Info),
            LogLevel::Info => Some(LogLevel::Debug),
            LogLevel::Debug => None,
            LogLevel::Unknown => None,
        }
    }

    /// Returns a human-readable label for the level.
    pub fn label(self) -> (r: &'static str)
        ensures
            r@ == label_of(self),
    {
        match self {
            LogLevel::Error => "ERROR",
            LogLevel::Warn => "WARN",
            LogLevel::Info => "INFO",
            LogLevel::Debug => "DEBUG",
            LogLevel::Unknown => "UNKNOWN",
        }
    }
}

/// Severity orders the levels strictly: Error, Warn, Info, Debug, Unknown.
pub proof fn severity_strictly_orders_levels(a: LogLevel, b: LogLevel)
    ensures
        (severity_of(a) == severity_of(b)) == (a == b),
        0 <= severity_of(a) <= 4,
        severity_of(LogLevel::Error) < severity_of(LogLevel::Warn),
        severity_of(LogLevel::Warn) < severity_of(LogLevel::Info),
        severity_of(LogLevel::Info) < severity_of(LogLevel::Debug),
        severity_of(LogLevel::Debug) < severity_of(LogLevel::Unknown),
{
}

/// Following the filter cycle never goes back to a more severe level: each
/// step admits strictly less severe entries as well.
pub proof fn next_filter_relaxes_severity(l: LogLevel)
    ensures
        next_filter_of(l) matches Some(n) ==> severity_of(n) == severity_of(l) + 1,
        next_filter_of(l) is None ==> severity_of(l) >= 3,
{
}

/// A parsed log entry: the line as read, its display text, its level, the
/// timestamp found in it and the source it came from.
#[derive(Clone, Debug)]
pub struct LogEntry {
    /// The raw log line as read
    pub raw: String,
    /// Pretty-printed version (formatted JSON or the line as read)
    pub pretty: String,
    /// Detected log level
    pub level: LogLevel,
    /// Timestamp found in the log entry (if any)
    pub timestamp: Option<Timestamp>,
    /// Source identifier (e.g., file name when several files are tailed)
    pub source: Option<String>,
}

// ---------------------------------------------------------------------------
// Level detection
// ---------------------------------------------------------------------------

/// The level named by a (lower-cased) level word of a JSON log.
pub open spec fn level_from_word(w: Seq<char>) -> LogLevel {
    if w == "error"@ || w == "err"@ || w == "fatal"@ {
        LogLevel::Error
    } else if w == "warn"@ || w == "warning"@ {
        LogLevel::Warn
    } else if w == "info"@ || w == "information"@ {
        LogLevel::Info
    } else if w == "debug"@ || w == "trace"@ {
        LogLevel::Debug
    } else {
        LogLevel::Unknown
    }
}

/// The level of a plain-text line, from keywords in its lower-cased text.
pub open spec fn plain_level(lower: Seq<char>) -> LogLevel {
    if contains_seq(lower, "error"@) || contains_seq(lower, "fatal"@) {
        LogLevel::Error
    } else if contains_seq(lower, "warn"@) {
        LogLevel::Warn
    } else if contains_seq(lower, "info"@) {
        LogLevel::Info
    } else if contains_seq(lower, "debug"@) || contains_seq(lower, "trace"@) {
        LogLevel::Debug
    } else {
        LogLevel::Unknown
    }
}

/// The level field of a JSON document: the first of `level`, `severity`,
/// `lvl` that is present.
pub open spec fn json_level_field(v: serde_json::Value) -> JsonFieldView {
    if !(json_field(v, "level"@) is Missing) {
        json_field(v, "level"@)
    } else if !(json_field(v, "severity"@) is Missing) {
        json_field(v, "severity"@)
    } else {
        json_field(v, "lvl"@)
    }
}

/// The level of a JSON document: from its level field when that is a string,
/// `Unknown` otherwise.
pub open spec fn json_level(v: serde_json::Value) -> LogLevel {
    match json_level_field(v) {
        JsonFieldView::Text(s) => level_from_word(lowercase(s)),
        _ => LogLevel::Unknown,
    }
}

/// Maps a level word to its level, ignoring case.
pub fn level_from_text(word: &str) -> (r: LogLevel)
    ensures
        r == level_from_word(lowercase(word@)),
{
    let lower = to_lowercase(word);
    let w = chars_of(lower.as_str());
    if chars_eq(&w, &chars_of("error")) || chars_eq(&w, &chars_of("err")) || chars_eq(
        &w,
        &chars_of("fatal"),
    ) {
        LogLevel::Error
    } else if chars_eq(&w, &chars_of("warn")) || chars_eq(&w, &chars_of("warning")) {
        LogLevel::Warn
    } else if chars_eq(&w, &chars_of("info")) || chars_eq(&w, &chars_of("information")) {
        LogLevel::Info
    } else if chars_eq(&w, &chars_of("debug")) || chars_eq(&w, &chars_of("trace")) {
        LogLevel::Debug
    } else {
        LogLevel::Unknown
    }
}

/// Guesses the level of a plain-text line from keywords (case-insensitive).
pub fn level_from_plain_text(line: &str) -> (r: LogLevel)
    ensures
        r == plain_level(lowercase(line@)),
{
    let lower = to_lowercase(line);
    let l = chars_of(lower.as_str());
    if contains(&l, &chars_of("error")) || contains(&l, &chars_of("fatal")) {
        LogLevel::Error
    } else if contains(&l, &chars_of("warn")) {
        LogLevel::Warn
    } else if contains(&l, &chars_of("info")) {
        LogLevel::Info
    } else if contains(&l, &chars_of("debug")) || contains(&l, &chars_of("trace")) {
        LogLevel::Debug
    } else {
        LogLevel::Unknown
    }
}

/// Finds the level of a JSON document.
pub fn level_of_json(v: &serde_json::Value) -> (r: LogLevel)
    ensures
        r == json_level(*v),
{
    let mut f = json_get_field(v, "level");
    if let JsonField::Missing = f {
        f = json_get_field(v, "severity");
        if let JsonField::Missing = f {
            f = json_get_field(v, "lvl");
        }
    }
    match f {
        JsonField::Text(s) => level_from_text(s.as_str()),
        _ => LogLevel::Unknown,
    }
}

// ---------------------------------------------------------------------------
// Timestamps of JSON documents
// ---------------------------------------------------------------------------

/// The fields consulted for a timestamp, in order.
pub open spec fn timestamp_field(i: int) -> Seq<char> {
    if i == 0 {
        "timestamp"@
    } else if i == 1 {
        "ts"@
    } else if i == 2 {
        "time"@
    } else if i == 3 {
        "@timestamp"@
    } else if i == 4 {
        "datetime"@
    } else {
        "date"@
    }
}

pub const TIMESTAMP_FIELD_COUNT: usize = 6;

fn timestamp_field_str(i: usize) -> (r: &'static str)
    requires
        i < TIMESTAMP_FIELD_COUNT,
    ensures
        r@ == timestamp_field(i as int),
{
    if i == 0 {
        "timestamp"
    } else if i == 1 {
        "ts"
    } else if i == 2 {
        "time"
    } else if i == 3 {
        "@timestamp"
    } else if i == 4 {
        "datetime"
    } else {
        "date"
    }
}

/// What reading one timestamp field may give: a string is parsed as timestamp
/// text, a number is handed to `epoch`, anything else (or nothing) gives `None`.
pub open spec fn field_timestamp_allows<F: Fn(&serde_json::Number) -> Option<Timestamp>>(
    f: JsonFieldView,
    epoch: F,
    p: Option<Timestamp>,
) -> bool {
    match f {
        JsonFieldView::Text(s) => timestamp_text_allows(s, p),
        JsonFieldView::Number(n) => call_ensures(epoch, (&n,), p),
        _ => p is None,
    }
}

/// What the timestamp of a JSON document may be, looking at the timestamp
/// fields from index `i` on: the first field that yields an instant wins.
pub open spec fn json_timestamp_allows<F: Fn(&serde_json::Number) -> Option<Timestamp>>(
    v: serde_json::Value,
    epoch: F,
    i: int,
    r: Option<Timestamp>,
) -> bool
    decreases TIMESTAMP_FIELD_COUNT - i,
{
    if i < 0 || i >= TIMESTAMP_FIELD_COUNT {
        r is None
    } else {
        exists|p: Option<Timestamp>|
            #![trigger field_timestamp_allows(json_field(v, timestamp_field(i)), epoch, p)]
            field_timestamp_allows(json_field(v, timestamp_field(i)), epoch, p) && (p is Some
                ==> r == p) && (p is None ==> json_timestamp_allows(v, epoch, i + 1, r))
    }
}

/// Extracts a timestamp from a JSON document by checking common field names.
pub fn extract_json_timestamp<F: Fn(&serde_json::Number) -> Option<Timestamp>>(
    v: &serde_json::Value,
    epoch: &F,
) -> (r: Option<Timestamp>)
    requires
        forall|n: serde_json::Number| call_requires(*epoch, (&n,)),
    ensures
        json_timestamp_allows(*v, *epoch, 0, r),
{
    let mut i: usize = 0;
    while i < TIMESTAMP_FIELD_COUNT
        invariant
            i <= TIMESTAMP_FIELD_COUNT,
            forall|n: serde_json::Number| call_requires(*epoch, (&n,)),
            forall|r: Option<Timestamp>|
                #![trigger json_timestamp_allows(*v, *epoch, i as int, r)]
                json_timestamp_allows(*v, *epoch, i as int, r) ==> json_timestamp_allows(
                    *v,
                    *epoch,
                    0,
                    r,
                ),
        decreases TIMESTAMP_FIELD_COUNT - i,
    {
        let f = json_get_field(v, timestamp_field_str(i));
        let ghost fv = f@;
        let p = match f {
            JsonField::Text(s) => parse_timestamp_str(s.as_str()),
            JsonField::Number(n) => epoch(&n),
            _ => None,
        };
        proof {
            assert(field_timestamp_allows(fv, *epoch, p));
        }
        if p.is_some() {
            proof {
                assert(json_timestamp_allows(*v, *epoch, i as int, p));
            }
            return p;
        }
        proof {
            assert forall|r: Option<Timestamp>|
                #![trigger json_timestamp_allows(*v, *epoch, i + 1, r)]
                json_timestamp_allows(*v, *epoch, i + 1, r) implies json_timestamp_allows(
                *v,
                *epoch,
                0,
                r,
            ) by {
                assert(json_timestamp_allows(*v, *epoch, i as int, r));
            }
        }
        i = i + 1;
    }
    proof {
        assert(json_timestamp_allows(*v, *epoch, TIMESTAMP_FIELD_COUNT as int, None));
    }
    None
}

// ---------------------------------------------------------------------------
// parse_log
// ---------------------------------------------------------------------------

/// What parsing a line gives: a JSON document is pretty-printed and its level
/// and timestamp are read from its fields; any other line is kept as it is,
/// its level guessed from keywords and its timestamp read from its start.
/// The entry carries no source.
pub open spec fn parsed_entry_matches<F: Fn(&serde_json::Number) -> Option<Timestamp>>(
    line: Seq<char>,
    epoch: F,
    e: LogEntry,
) -> bool {
    &&& e.raw@ == line
    &&& e.source is None
    &&& match json_parse_result(line) {
        Some(v) => {
            &&& e.pretty@ == json_pretty_text(v)
            &&& e.level == json_level(v)
            &&& json_timestamp_allows(v, epoch, 0, e.timestamp)
        },
        None => {
            &&& e.pretty@ == line
            &&& e.level == plain_level(lowercase(line))
            &&& plain_timestamp_allows(line, e.timestamp)
        },
    }
}

/// Parses a raw log line into a [`LogEntry`].
///
/// A line that is valid JSON is pretty-printed and its level is taken from the
/// `level`, `severity` or `lvl` field; its timestamp from the first of the
/// usual timestamp fields that yields one (numbers are interpreted by
/// `epoch`). Any other line is plain text: its level is guessed from keywords
/// such as "error", "warn", "info", and its timestamp read from its start.
pub fn parse_log<F: Fn(&serde_json::Number) -> Option<Timestamp>>(line: String, epoch: &F) -> (e:
    LogEntry)
    requires
        forall|n: serde_json::Number| call_requires(*epoch, (&n,)),
    ensures
        parsed_entry_matches(line@, *epoch, e),
{
    match json_parse(line.as_str()) {
        Some(v) => {
            let level = level_of_json(&v);
            let timestamp = extract_json_timestamp(&v, epoch);
            let pretty = json_pretty(&v);
            LogEntry { raw: line, pretty, level, timestamp, source: None }
        },
        None => {
            let level = level_from_plain_text(line.as_str());
            let timestamp = extract_plain_text_timestamp(line.as_str());
            LogEntry { raw: line.clone(), pretty: line, level, timestamp, source: None }
        },
    }
}

} // verus!

//! Timestamps of log entries: the instant model, parsing of timestamp text
//! through chrono, the plain-text timestamp prefix grammar and relative-time
//! formatting.

use vstd::prelude::*;

use crate::app::{regex_compiled, regex_is_match, regex_matches, regex_new};
use crate::text::{chars_of, decimal, push_decimal, push_str_chars, string_of_range};

verus! {

/// An instant, as seconds and nanoseconds since the Unix epoch (UTC).
///
/// `nanos` is what chrono reports as the sub-second part; during a leap second
/// it may exceed 999,999,999.
#[derive(Clone, Copy, Debug, PartialEq, Eq)]
pub struct Timestamp {
    pub secs: i64,
    pub nanos: u32,
}

// ---------------------------------------------------------------------------
// chrono
// ---------------------------------------------------------------------------

#[verifier::external_type_specification]
#[verifier::external_body]
pub struct ExNaiveDateTime(chrono::NaiveDateTime);

/// The instant that `DateTime::parse_from_rfc3339` finds in a text, if it accepts it.
pub uninterp spec fn rfc3339_instant(s: Seq<char>) -> Option<Timestamp>;

/// The instant that `DateTime::parse_from_str` finds in a text under a format, if it accepts it.
pub uninterp spec fn offset_format_instant(s: Seq<char>, fmt: Seq<char>) -> Option<Timestamp>;

/// The date-time that `NaiveDateTime::parse_from_str` finds in a text under a
/// format, if it accepts it.
pub uninterp spec fn naive_parsed(s: Seq<char>, fmt: Seq<char>) -> Option<chrono::NaiveDateTime>;

/// The seconds since the epoch of a date-time read as UTC
/// (`NaiveDateTime::and_utc().timestamp()`).
pub uninterp spec fn naive_utc_secs(n: chrono::NaiveDateTime) -> i64;

/// The sub-second nanoseconds of a date-time read as UTC
/// (`NaiveDateTime::and_utc().timestamp_subsec_nanos()`).
pub uninterp spec fn naive_nanos(n: chrono::NaiveDateTime) -> u32;

/// An instant lies less than a day away from a date-time read as UTC, with
/// the same sub-second nanoseconds: what reading it in some time zone whose
/// offset is a whole number of seconds, less than a day, gives.
pub open spec fn within_a_day_of(t: Timestamp, n: chrono::NaiveDateTime) -> bool {
    &&& naive_utc_secs(n) - 86400 < t.secs < naive_utc_secs(n) + 86400
    &&& t.nanos == naive_nanos(n)
}

/// Calls `chrono::DateTime::parse_from_rfc3339`; the instant found (seconds and
/// sub-second nanoseconds since the epoch) is named by `rfc3339_instant`.
#[verifier::external_body]
fn parse_rfc3339(s: &str) -> (r: Option<Timestamp>)
    ensures
        r == rfc3339_instant(s@),
{
    chrono::DateTime::parse_from_rfc3339(s).ok().map(
        |dt| Timestamp { secs: dt.timestamp(), nanos: dt.timestamp_subsec_nanos() },
    )
}

/// Calls `chrono::DateTime::parse_from_str`, which needs an offset in the text;
/// the instant found is named by `offset_format_instant`.
#[verifier::external_body]
fn parse_with_offset(s: &str, fmt: &str) -> (r: Option<Timestamp>)
    ensures
        r == offset_format_instant(s@, fmt@),
{
    chrono::DateTime::parse_from_str(s, fmt).ok().map(
        |dt| Timestamp { secs: dt.timestamp(), nanos: dt.timestamp_subsec_nanos() },
    )
}

/// Calls `chrono::NaiveDateTime::parse_from_str`; the date-time found is named
/// by `naive_parsed`.
#[verifier::external_body]
fn parse_naive(s: &str, fmt: &str) -> (r: Option<chrono::NaiveDateTime>)
    ensures
        r == naive_parsed(s@, fmt@),
{
    chrono::NaiveDateTime::parse_from_str(s, fmt).ok()
}

/// Calls `NaiveDateTime::and_local_timezone(Local)` and takes the earliest
/// instant. Which instant depends on the machine's time zone; what is stated
/// is what holds in every zone: a local offset is a whole number of seconds
/// strictly within a day (`FixedOffset::east_opt`), so the instant is less
/// than a day away from the date-time read as UTC and keeps its nanoseconds.
/// There may be no instant at all (a date-time skipped by a clock change).
#[verifier::external_body]
fn naive_in_local_zone(n: &chrono::NaiveDateTime) -> (r: Option<Timestamp>)
    ensures
        r matches Some(t) ==> naive_utc_secs(*n) - 86400 < t.secs < naive_utc_secs(*n) + 86400
            && t.nanos == naive_nanos(*n),
{
    n.and_local_timezone(chrono::Local).earliest().map(
        |dt| Timestamp { secs: dt.timestamp(), nanos: dt.timestamp_subsec_nanos() },
    )
}

/// Reads the clock (`chrono::Local::now`). Nothing is stated of the instant.
#[verifier::external_body]
pub(crate) fn now() -> (r: Timestamp) {
    let dt = chrono::Local::now();
    Timestamp { secs: dt.timestamp(), nanos: dt.timestamp_subsec_nanos() }
}

// ---------------------------------------------------------------------------
// Timestamp text
// ---------------------------------------------------------------------------

/// Formats tried with an offset in the text, in order.
pub open spec fn offset_format(i: int) -> Seq<char> {
    if i == 0 {
        "%Y-%m-%dT%H:%M:%S%.f%:z"@
    } else if i == 1 {
        "%Y-%m-%dT%H:%M:%S%:z"@
    } else if i == 2 {
        "%Y-%m-%dT%H:%M:%S%.f%z"@
    } else {
        "%Y-%m-%dT%H:%M:%S%z"@
    }
}

/// Formats tried without an offset (local time), in order.
pub open spec fn naive_format(i: int) -> Seq<char> {
    if i == 0 {
        "%Y-%m-%dT%H:%M:%S%.f"@
    } else if i == 1 {
        "%Y-%m-%dT%H:%M:%S"@
    } else if i == 2 {
        "%Y-%m-%d %H:%M:%S%.f"@
    } else if i == 3 {
        "%Y-%m-%d %H:%M:%S"@
    } else if i == 4 {
        "%Y/%m/%d %H:%M:%S%.f"@
    } else {
        "%Y/%m/%d %H:%M:%S"@
    }
}

pub const OFFSET_FORMAT_COUNT: usize = 4;

pub const NAIVE_FORMAT_COUNT: usize = 6;

fn offset_format_str(i: usize) -> (r: &'static str)
    requires
        i < OFFSET_FORMAT_COUNT,
    ensures
        r@ == offset_format(i as int),
{
    if i == 0 {
        "%Y-%m-%dT%H:%M:%S%.f%:z"
    } else if i == 1 {
        "%Y-%m-%dT%H:%M:%S%:z"
    } else if i == 2 {
        "%Y-%m-%dT%H:%M:%S%.f%z"
    } else {
        "%Y-%m-%dT%H:%M:%S%z"
    }
}

fn naive_format_str(i: usize) -> (r: &'static str)
    requires
        i < NAIVE_FORMAT_COUNT,
    ensures
        r@ == naive_format(i as int),
{
    if i == 0 {
        "%Y-%m-%dT%H:%M:%S%.f"
    } else if i == 1 {
        "%Y-%m-%dT%H:%M:%S"
    } else if i == 2 {
        "%Y-%m-%d %H:%M:%S%.f"
    } else if i == 3 {
        "%Y-%m-%d %H:%M:%S"
    } else if i == 4 {
        "%Y/%m/%d %H:%M:%S%.f"
    } else {
        "%Y/%m/%d %H:%M:%S"
    }
}

/// The first offset format, from index `i` on, under which the text parses.
pub open spec fn first_offset_instant(s: Seq<char>, i: int) -> Option<Timestamp>
    decreases OFFSET_FORMAT_COUNT - i,
{
    if i >= OFFSET_FORMAT_COUNT || i < 0 {
        None
    } else {
        match offset_format_instant(s, offset_format(i)) {
            Some(t) => Some(t),
            None => first_offset_instant(s, i + 1),
        }
    }
}

/// The date-time of the first format without offset, from index `i` on, that
/// accepts the text.
pub open spec fn first_naive_parse(s: Seq<char>, i: int) -> Option<chrono::NaiveDateTime>
    decreases NAIVE_FORMAT_COUNT - i,
{
    if i >= NAIVE_FORMAT_COUNT || i < 0 {
        None
    } else {
        match naive_parsed(s, naive_format(i)) {
            Some(n) => Some(n),
            None => first_naive_parse(s, i + 1),
        }
    }
}

/// What parsing a timestamp text may give: the RFC 3339 instant if there is
/// one, else the instant of the first offset format that accepts the text,
/// else the date-time of the first format without offset that accepts it,
/// read as local time: an instant less than a day from that date-time read as
/// UTC, with the same nanoseconds, or `None` when the local time does not
/// exist. `None` when no format accepts the text.
pub open spec fn timestamp_text_allows(s: Seq<char>, r: Option<Timestamp>) -> bool {
    match rfc3339_instant(s) {
        Some(t) => r == Some(t),
        None => match first_offset_instant(s, 0) {
            Some(t) => r == Some(t),
            None => match first_naive_parse(s, 0) {
                Some(n) => r is None || (r matches Some(t) && within_a_day_of(t, n)),
                None => r is None,
            },
        },
    }
}

/// Parses a timestamp text: RFC 3339 first, then the formats with an offset,
/// then the formats without one (read as local time).
pub fn parse_timestamp_str(s: &str) -> (r: Option<Timestamp>)
    ensures
        timestamp_text_allows(s@, r),
{
    if let Some(t) = parse_rfc3339(s) {
        return Some(t);
    }
    let mut i: usize = 0;
    while i < OFFSET_FORMAT_COUNT
        invariant
            i <= OFFSET_FORMAT_COUNT,
            rfc3339_instant(s@) is None,
            first_offset_instant(s@, 0) == first_offset_instant(s@, i as int),
        decreases OFFSET_FORMAT_COUNT - i,
    {
        if let Some(t) = parse_with_offset(s, offset_format_str(i)) {
            return Some(t);
        }
        i = i + 1;
    }
    match first_naive_datetime(s) {
        Some(n) => naive_in_local_zone(&n),
        None => None,
    }
}

/// The date-time found by the first format without offset that accepts the text.
fn first_naive_datetime(s: &str) -> (r: Option<chrono::NaiveDateTime>)
    ensures
        r == first_naive_parse(s@, 0),
{
    let mut j: usize = 0;
    while j < NAIVE_FORMAT_COUNT
        invariant
            j <= NAIVE_FORMAT_COUNT,
            first_naive_parse(s@, 0) == first_naive_parse(s@, j as int),
        decreases NAIVE_FORMAT_COUNT - j,
    {
        let p = parse_naive(s, naive_format_str(j));
        if p.is_some() {
            return p;
        }
        j = j + 1;
    }
    None
}

// ---------------------------------------------------------------------------
// Timestamp prefix of a plain-text line
// ---------------------------------------------------------------------------

/// The regex crate's pattern for one decimal digit (`\d`: any Unicode decimal digit).
pub open spec fn digit_pattern() -> Seq<char> {
    "^\\d$"@
}

/// A decimal digit, as the regex crate's `\d` tells them: the ASCII digits,
/// no other ASCII character, and those other characters that the compiled
/// digit pattern matches.
pub open spec fn is_digit(c: char) -> bool {
    if '0' <= c && c <= '9' {
        true
    } else if (c as u32) < 128 {
        false
    } else {
        match regex_compiled(digit_pattern()) {
            Some(re) => regex_matches(re, seq![c]),
            None => false,
        }
    }
}

/// `n` digits start at position `i`.
pub open spec fn digits_at(s: Seq<char>, i: int, n: int) -> bool {
    0 <= i && i + n <= s.len() && forall|k: int| i <= k < i + n ==> is_digit(s[k])
}

/// The date and time core: `dddd<sep>dd<sep>dd<mid>dd:dd:dd`, 19 characters.
pub open spec fn date_time_core(s: Seq<char>, sep: char, mid_t_allowed: bool) -> bool {
    &&& s.len() >= 19
    &&& digits_at(s, 0, 4)
    &&& s[4] == sep
    &&& digits_at(s, 5, 2)
    &&& s[7] == sep
    &&& digits_at(s, 8, 2)
    &&& (s[10] == ' ' || (mid_t_allowed && s[10] == 'T'))
    &&& digits_at(s, 11, 2)
    &&& s[13] == ':'
    &&& digits_at(s, 14, 2)
    &&& s[16] == ':'
    &&& digits_at(s, 17, 2)
}

/// Length of the longest run of digits starting at `i`.
pub open spec fn digit_run(s: Seq<char>, i: int) -> int
    decreases s.len() - i,
{
    if 0 <= i < s.len() && is_digit(s[i]) {
        1 + digit_run(s, i + 1)
    } else {
        0
    }
}

/// Length of an optional fraction `.d+` at `i` (taken with as many digits as there are).
pub open spec fn fraction_len(s: Seq<char>, i: int) -> int {
    if 0 <= i && i + 1 < s.len() && s[i] == '.' && is_digit(s[i + 1]) {
        1 + digit_run(s, i + 1)
    } else {
        0
    }
}

/// Length of an optional zone suffix at `i`: `Z`, `+hh:mm` or `+hhmm` (or `-`).
pub open spec fn zone_len(s: Seq<char>, i: int) -> int {
    if 0 <= i < s.len() && s[i] == 'Z' {
        1
    } else if 0 <= i < s.len() && (s[i] == '+' || s[i] == '-') && digits_at(s, i + 1, 2) {
        if i + 3 < s.len() && s[i + 3] == ':' && digits_at(s, i + 4, 2) {
            6
        } else if digits_at(s, i + 3, 2) {
            5
        } else {
            0
        }
    } else {
        0
    }
}

/// Length of the timestamp that a line starts with, if it starts with one:
/// `dddd-dd-dd[T ]dd:dd:dd` with an optional fraction and zone, or
/// `dddd/dd/dd dd:dd:dd` with an optional fraction.
pub open spec fn timestamp_prefix_len(s: Seq<char>) -> Option<int> {
    if date_time_core(s, '-', true) {
        let f = fraction_len(s, 19);
        Some(19 + f + zone_len(s, 19 + f))
    } else if date_time_core(s, '/', false) {
        Some(19 + fraction_len(s, 19))
    } else {
        None
    }
}

fn is_digit_char(c: char) -> (b: bool)
    ensures
        b == is_digit(c),
{
    if '0' <= c && c <= '9' {
        true
    } else if (c as u32) < 128 {
        false
    } else {
        let mut one = String::new();
        one.push(c);
        proof {
            assert(one@ =~= seq![c]);
        }
        match regex_new("^\\d$") {
            Some(re) => regex_is_match(&re, one.as_str()),
            None => false,
        }
    }
}

fn digits_at_exec(s: &Vec<char>, i: usize, n: usize) -> (b: bool)
    ensures
        b == digits_at(s@, i as int, n as int),
{
    if i > s.len() || n > s.len() - i {
        return false;
    }
    let mut k: usize = 0;
    while k < n
        invariant
            k <= n,
            i + n <= s@.len(),
            s@.len() == s.len(),
            forall|m: int| i <= m < i + k ==> is_digit(s@[m]),
        decreases n - k,
    {
        if !is_digit_char(s[i + k]) {
            return false;
        }
        k = k + 1;
    }
    true
}

fn date_time_core_exec(s: &Vec<char>, sep: char, mid_t_allowed: bool) -> (b: bool)
    ensures
        b == date_time_core(s@, sep, mid_t_allowed),
{
    if s.len() < 19 {
        return false;
    }
    // The separators are checked first: they are cheaper to tell than digits.
    s[4] == sep && s[7] == sep && (s[10] == ' ' || (mid_t_allowed && s[10] == 'T')) && s[13]
        == ':' && s[16] == ':' && digits_at_exec(s, 0, 4) && digits_at_exec(s, 5, 2)
        && digits_at_exec(s, 8, 2) && digits_at_exec(s, 11, 2) && digits_at_exec(s, 14, 2)
        && digits_at_exec(s, 17, 2)
}

fn digit_run_exec(s: &Vec<char>, i: usize) -> (r: usize)
    requires
        i <= s@.len(),
    ensures
        r == digit_run(s@, i as int),
        i + r <= s@.len(),
{
    let mut k: usize = i;
    while k < s.len() && is_digit_char(s[k])
        invariant
            i <= k <= s@.len(),
            digit_run(s@, i as int) == (k - i) + digit_run(s@, k as int),
        decreases s.len() - k,
    {
        k = k + 1;
    }
    k - i
}

fn fraction_len_exec(s: &Vec<char>, i: usize) -> (r: usize)
    requires
        i <= s@.len(),
    ensures
        r == fraction_len(s@, i as int),
        i + r <= s@.len(),
{
    if s.len() - i > 1 && s[i] == '.' && is_digit_char(s[i + 1]) {
        1 + digit_run_exec(s, i + 1)
    } else {
        0
    }
}

fn zone_len_exec(s: &Vec<char>, i: usize) -> (r: usize)
    requires
        i <= s@.len(),
    ensures
        r == zone_len(s@, i as int),
        i + r <= s@.len(),
{
    if i < s.len() && s[i] == 'Z' {
        1
    } else if i < s.len() && (s[i] == '+' || s[i] == '-') && digits_at_exec(s, i + 1, 2) {
        if s.len() - i > 3 && s[i + 3] == ':' && digits_at_exec(s, i + 4, 2) {
            6
        } else if digits_at_exec(s, i + 3, 2) {
            5
        } else {
            0
        }
    } else {
        0
    }
}

/// Finds the length of the timestamp a line starts with.
pub fn timestamp_prefix(s: &Vec<char>) -> (r: Option<usize>)
    ensures
        match r {
            Some(n) => timestamp_prefix_len(s@) == Some(n as int) && n <= s@.len(),
            None => timestamp_prefix_len(s@) is None,
        },
{
    let len = s.len();
    if date_time_core_exec(s, '-', true) {
        assert(len >= 19);
        let f = fraction_len_exec(s, 19);
        let z = zone_len_exec(s, 19 + f);
        Some(19 + f + z)
    } else if date_time_core_exec(s, '/', false) {
        assert(len >= 19);
        Some(19 + fraction_len_exec(s, 19))
    } else {
        None
    }
}

/// What may be found as the timestamp of a plain-text line: the parse of the
/// timestamp text at its start, or `None` when it has none.
pub open spec fn plain_timestamp_allows(line: Seq<char>, r: Option<Timestamp>) -> bool {
    match timestamp_prefix_len(line) {
        Some(n) => timestamp_text_allows(line.subrange(0, n), r),
        None => r is None,
    }
}

/// Extracts a timestamp from the beginning of a plain-text log line.
pub fn extract_plain_text_timestamp(line: &str) -> (r: Option<Timestamp>)
    ensures
        plain_timestamp_allows(line@, r),
{
    let chars = chars_of(line);
    match timestamp_prefix(&chars) {
        Some(n) => {
            let prefix = string_of_range(chars.as_slice(), 0, n);
            parse_timestamp_str(prefix.as_str())
        },
        None => None,
    }
}

// ---------------------------------------------------------------------------
// Relative time
// ---------------------------------------------------------------------------

/// Nanoseconds since the epoch.
pub open spec fn total_nanos(t: Timestamp) -> int {
    t.secs * 1_000_000_000 + t.nanos
}

/// Whole seconds from `dt` to `now`, truncated toward zero.
pub open spec fn elapsed_secs(dt: Timestamp, now: Timestamp) -> int {
    let d = total_nanos(now) - total_nanos(dt);
    if d >= 0 {
        d / 1_000_000_000
    } else {
        -((-d) / 1_000_000_000)
    }
}

/// The relative-time label: `future`, or the elapsed time in the largest unit
/// among seconds, minutes, hours and days that keeps the count below the next unit.
pub open spec fn relative_label(secs: int) -> Seq<char> {
    if secs < 0 {
        "future"@
    } else if secs < 60 {
        decimal(secs as nat) + "s ago"@
    } else if secs / 60 < 60 {
        decimal((secs / 60) as nat) + "m ago"@
    } else if secs / 3600 < 24 {
        decimal((secs / 3600) as nat) + "h ago"@
    } else {
        decimal((secs / 86400) as nat) + "d ago"@
    }
}

/// Whole seconds between two instants, truncated toward zero.
pub fn elapsed_seconds(dt: Timestamp, now: Timestamp) -> (r: i128)
    ensures
        r == elapsed_secs(dt, now),
{
    let a: i128 = (now.secs as i128) * 1_000_000_000 + (now.nanos as i128);
    let b: i128 = (dt.secs as i128) * 1_000_000_000 + (dt.nanos as i128);
    let d: i128 = a - b;
    if d >= 0 {
        d / 1_000_000_000
    } else {
        -((-d) / 1_000_000_000)
    }
}

/// Formats how long ago `dt` was, as seen at `now` (e.g. `3s ago`, `2m ago`).
pub fn format_relative_time_at(dt: Timestamp, now: Timestamp) -> (r: String)
    ensures
        r@ == relative_label(elapsed_secs(dt, now)),
{
    let secs = elapsed_seconds(dt, now);
    let mut out = String::new();
    if secs < 0 {
        push_str_chars(&mut out, "future");
        return out;
    }
    if secs < 60 {
        push_decimal(&mut out, secs as u64);
        push_str_chars(&mut out, "s ago");
    } else if secs / 60 < 60 {
        push_decimal(&mut out, (secs / 60) as u64);
        push_str_chars(&mut out, "m ago");
    } else if secs / 3600 < 24 {
        push_decimal(&mut out, (secs / 3600) as u64);
        push_str_chars(&mut out, "h ago");
    } else {
        assert(secs <= 0x1_0000_0000_0000_0010);
        push_decimal(&mut out, (secs / 86400) as u64);
        push_str_chars(&mut out, "d ago");
    }
    out
}

/// Formats how long ago `dt` was, reading the clock for the present instant.
pub fn format_relative_time(dt: Timestamp) -> (r: String)
    ensures
        exists|n: Timestamp| r@ == relative_label(elapsed_secs(dt, n)),
{
    let n = now();
    format_relative_time_at(dt, n)
}

} // verus!

//! The decisions of the log sources: line clean-up and truncation, the file
//! tailing state machine, the notices sent to the viewer and the demo lines.

use vstd::prelude::*;
use vstd::utf8::{char_is_scalar, encode_scalar, encode_utf8};

use crate::config::MAX_LOG_LINE_SIZE;
use crate::text::{chars_of, push_chars, push_str_chars, string_of, string_of_range};

verus! {

// ---------------------------------------------------------------------------
// Line truncation
// ---------------------------------------------------------------------------

/// Suffix appended to truncated lines.
pub const TRUNCATION_SUFFIX: &'static str = " ... [truncated]";

/// Number of bytes of [`TRUNCATION_SUFFIX`].
pub const TRUNCATION_SUFFIX_LEN: usize = 16;

/// The number of bytes of the UTF-8 encoding of a text.
pub open spec fn utf8_len(s: Seq<char>) -> int {
    encode_utf8(s).len() as int
}

/// The number of leading characters, from `k` on, whose encoding fits in `limit` bytes.
pub open spec fn fitting_prefix(s: Seq<char>, limit: int, k: int) -> int
    decreases s.len() - k,
{
    if 0 <= k < s.len() && utf8_len(s.take(k + 1)) <= limit {
        fitting_prefix(s, limit, k + 1)
    } else {
        k
    }
}

/// A line as kept for display: unchanged when its encoding fits in
/// `MAX_LOG_LINE_SIZE` bytes; otherwise cut at a character boundary and
/// followed by the truncation suffix, the whole fitting in that many bytes.
pub open spec fn truncated(s: Seq<char>) -> Seq<char> {
    if utf8_len(s) <= MAX_LOG_LINE_SIZE {
        s
    } else {
        s.take(fitting_prefix(s, MAX_LOG_LINE_SIZE - TRUNCATION_SUFFIX_LEN, 0)) + TRUNCATION_SUFFIX@
    }
}

/// Number of bytes of the UTF-8 encoding of a character.
fn char_utf8_len(c: char) -> (n: usize)
    ensures
        n == encode_scalar(c as u32).len(),
        1 <= n <= 4,
{
    proof {
        char_is_scalar(c);
    }
    let v = c as u32;
    if v <= 0x7F {
        1
    } else if v <= 0x7FF {
        2
    } else if v <= 0xFFFF {
        3
    } else {
        4
    }
}

/// The encoding of a text extended by one character.
pub proof fn lemma_utf8_len_push(s: Seq<char>, c: char)
    ensures
        utf8_len(s.push(c)) == utf8_len(s) + encode_scalar(c as u32).len(),
    decreases s.len(),
{
    if s.len() == 0 {
        assert(s.push(c).drop_first() =~= Seq::<char>::empty());
        assert(encode_utf8(Seq::<char>::empty()) =~= Seq::<u8>::empty());
        assert(encode_utf8(s.push(c)) =~= encode_scalar(c as u32) + encode_utf8(Seq::<char>::empty()));
    } else {
        assert(s.push(c).drop_first() =~= s.drop_first().push(c));
        lemma_utf8_len_push(s.drop_first(), c);
    }
}

/// The encoding of a longer prefix is longer.
pub proof fn lemma_utf8_len_take_monotone(s: Seq<char>, i: int, j: int)
    requires
        0 <= i <= j <= s.len(),
    ensures
        utf8_len(s.take(i)) <= utf8_len(s.take(j)),
    decreases j - i,
{
    if i < j {
        lemma_utf8_len_take_monotone(s, i, j - 1);
        assert(s.take(j) =~= s.take(j - 1).push(s[j - 1]));
        lemma_utf8_len_push(s.take(j - 1), s[j - 1]);
    }
}

/// `fitting_prefix` finds where the encoding stops fitting.
pub proof fn lemma_fitting_prefix(s: Seq<char>, limit: int, k: int)
    requires
        0 <= k <= s.len(),
        utf8_len(s.take(k)) <= limit,
    ensures
        k <= fitting_prefix(s, limit, k) <= s.len(),
        utf8_len(s.take(fitting_prefix(s, limit, k))) <= limit,
        fitting_prefix(s, limit, k) < s.len() ==> utf8_len(
            s.take(fitting_prefix(s, limit, k) + 1),
        ) > limit,
    decreases s.len() - k,
{
    if k < s.len() && utf8_len(s.take(k + 1)) <= limit {
        lemma_fitting_prefix(s, limit, k + 1);
    }
}

/// `fitting_prefix` is the one cut where the encoding stops fitting.
pub proof fn lemma_fitting_prefix_unique(s: Seq<char>, limit: int, k: int, j: int)
    requires
        0 <= j <= k <= s.len(),
        utf8_len(s.take(k)) <= limit,
        k < s.len() ==> utf8_len(s.take(k + 1)) > limit,
    ensures
        fitting_prefix(s, limit, j) == k,
    decreases k - j,
{
    if j < k {
        lemma_utf8_len_take_monotone(s, j + 1, k);
        lemma_fitting_prefix_unique(s, limit, k, j + 1);
    }
}

/// Truncates a line in place when its UTF-8 encoding exceeds
/// [`MAX_LOG_LINE_SIZE`] bytes: it is cut at a character boundary and the
/// truncation suffix is appended, so that the result fits in that many bytes.
pub fn truncate_line(line: &mut String)
    ensures
        final(line)@ == truncated(old(line)@),
{
    let chars = chars_of(line.as_str());
    let ghost s = chars@;
    let limit: usize = MAX_LOG_LINE_SIZE - TRUNCATION_SUFFIX_LEN;
    // Find the longest prefix that fits in `limit` bytes, and whether the
    // whole line fits in `MAX_LOG_LINE_SIZE` bytes.
    let mut total: usize = 0;
    let mut cut: usize = 0;
    let mut i: usize = 0;
    let mut over = false;
    proof {
        assert(s.take(0) =~= Seq::<char>::empty());
        assert(encode_utf8(Seq::<char>::empty()) =~= Seq::<u8>::empty());
    }
    while i < chars.len() && !over
        invariant
            s == chars@,
            s == old(line)@,
            i <= s.len(),
            total == utf8_len(s.take(i as int)),
            total <= MAX_LOG_LINE_SIZE,
            cut <= i,
            limit == MAX_LOG_LINE_SIZE - TRUNCATION_SUFFIX_LEN,
            utf8_len(s.take(cut as int)) <= limit,
            total <= limit ==> cut == i,
            total > limit ==> cut < i && utf8_len(s.take(cut + 1)) > limit,
            over ==> i < s.len() && utf8_len(s.take(i + 1)) > MAX_LOG_LINE_SIZE,
        decreases chars.len() - i + (if over {
            0int
        } else {
            1int
        }),
    {
        let n = char_utf8_len(chars[i]);
        proof {
            assert(s.take(i + 1) =~= s.take(i as int).push(s[i as int]));
            lemma_utf8_len_push(s.take(i as int), s[i as int]);
        }
        if total + n > MAX_LOG_LINE_SIZE {
            over = true;
        } else {
            total = total + n;
            if total <= limit {
                cut = i + 1;
            }
            i = i + 1;
        }
    }
    if !over {
        proof {
            assert(s.take(s.len() as int) =~= s);
        }
        return;
    }
    proof {
        assert(s.take(s.len() as int) =~= s);
        lemma_utf8_len_take_monotone(s, i + 1, s.len() as int);
        lemma_fitting_prefix_unique(s, limit as int, cut as int, 0);
    }
    let mut out = string_of_range(chars.as_slice(), 0, cut);
    push_str_chars(&mut out, TRUNCATION_SUFFIX);
    *line = out;
}

// ---------------------------------------------------------------------------
// Line clean-up
// ---------------------------------------------------------------------------

/// A line without its trailing `'\n'` and `'\r'` characters.
pub open spec fn without_line_ending(s: Seq<char>) -> Seq<char>
    decreases s.len(),
{
    if s.len() > 0 && (s.last() == '\n' || s.last() == '\r') {
        without_line_ending(s.drop_last())
    } else {
        s
    }
}

/// Prepares a line read from a source for the viewer: the line ending is
/// removed and the line is truncated when it is too long.
pub fn prepare_line(raw: String) -> (line: String)
    ensures
        line@ == truncated(without_line_ending(raw@)),
{
    let mut chars = chars_of(raw.as_str());
    while chars.len() > 0 && (chars[chars.len() - 1] == '\n' || chars[chars.len() - 1] == '\r')
        invariant
            without_line_ending(chars@) == without_line_ending(raw@),
        decreases chars.len(),
    {
        let ghost before = chars@;
        chars.pop();
        proof {
            assert(chars@ =~= before.drop_last());
        }
    }
    let mut line = string_of(chars.as_slice());
    truncate_line(&mut line);
    line
}

// ---------------------------------------------------------------------------
// Notices
// ---------------------------------------------------------------------------

/// The kinds of notices a source sends to the viewer.
#[derive(Clone, Copy, Debug, PartialEq, Eq, Structural)]
pub enum SourceNotice {
    /// A tailed file became shorter: it was truncated or rotated.
    Truncated,
    /// A tailed file cannot be read any more.
    Unavailable,
    /// A file to tail does not exist yet.
    Waiting,
    /// A file waited for has appeared.
    Found,
    /// A line could not be read from a file.
    ReadError,
    /// Standard input could not be read.
    StdinError,
    /// Standard input has ended.
    EndOfInput,
}

/// The text of a notice about `subject` (a path) with the error `detail`.
pub open spec fn notice_spec(kind: SourceNotice, subject: Seq<char>, detail: Seq<char>) -> Seq<char> {
    match kind {
        SourceNotice::Truncated => "\u{26a0}\u{fe0f}  File truncated or rotated: "@ + subject,
        SourceNotice::Unavailable => "\u{26a0}\u{fe0f}  File unavailable: "@ + subject + " ("@ + detail
            + ")"@,
        SourceNotice::Waiting => "\u{26a0}\u{fe0f}  Waiting for file to exist: "@ + subject + " ("@
            + detail + ")"@,
        SourceNotice::Found => "\u{2713} File found: "@ + subject,
        SourceNotice::ReadError => "\u{26a0}\u{fe0f}  Error reading line: "@ + detail,
        SourceNotice::StdinError => "\u{26a0}\u{fe0f}  Error reading from stdin: "@ + detail,
        SourceNotice::EndOfInput => "\u{2139}\u{fe0f}  End of input stream reached"@,
    }
}

/// Composes the text of a notice.
pub fn notice_text(kind: SourceNotice, subject: &str, detail: &str) -> (r: String)
    ensures
        r@ == notice_spec(kind, subject@, detail@),
{
    let mut r = String::new();
    match kind {
        SourceNotice::Truncated => {
            push_str_chars(&mut r, "\u{26a0}\u{fe0f}  File truncated or rotated: ");
            push_str_chars(&mut r, subject);
        },
        SourceNotice::Unavailable => {
            push_str_chars(&mut r, "\u{26a0}\u{fe0f}  File unavailable: ");
            push_str_chars(&mut r, subject);
            push_str_chars(&mut r, " (");
            push_str_chars(&mut r, detail);
            push_str_chars(&mut r, ")");
        },
        SourceNotice::Waiting => {
            push_str_chars(&mut r, "\u{26a0}\u{fe0f}  Waiting for file to exist: ");
            push_str_chars(&mut r, subject);
            push_str_chars(&mut r, " (");
            push_str_chars(&mut r, detail);
            push_str_chars(&mut r, ")");
        },
        SourceNotice::Found => {
            push_str_chars(&mut r, "\u{2713} File found: ");
            push_str_chars(&mut r, subject);
        },
        SourceNotice::ReadError => {
            push_str_chars(&mut r, "\u{26a0}\u{fe0f}  Error reading line: ");
            push_str_chars(&mut r, detail);
        },
        SourceNotice::StdinError => {
            push_str_chars(&mut r, "\u{26a0}\u{fe0f}  Error reading from stdin: ");
            push_str_chars(&mut r, detail);
        },
        SourceNotice::EndOfInput => {
            push_str_chars(&mut r, "\u{2139}\u{fe0f}  End of input stream reached");
        },
    }
    r
}

// ---------------------------------------------------------------------------
// File tailing
// ---------------------------------------------------------------------------

/// What the tailing loop does after looking at the file once.
#[derive(Clone, Copy, Debug, PartialEq, Eq, Structural)]
pub struct TailStep {
    /// A notice to send first, if any.
    pub notice: Option<SourceNotice>,
    /// Whether the open reader must be closed (it is reopened when needed).
    pub close_reader: bool,
    /// The offset to continue from.
    pub offset: u64,
    /// Whether new bytes are there to be read from `offset`.
    pub read: bool,
}

/// One poll of a tailed file, given the offset read so far and the file's
/// current length (`None` when its metadata cannot be read): a file that
/// became shorter was truncated or rotated and is read again from the start;
/// a file that cannot be read is waited for from the start; a longer file is
/// read from the offset.
pub open spec fn tail_step_spec(offset: u64, file_len: Option<u64>) -> TailStep {
    match file_len {
        None => TailStep {
            notice: Some(SourceNotice::Unavailable),
            close_reader: true,
            offset: 0,
            read: false,
        },
        Some(len) => {
            let rotated = len < offset;
            let from: u64 = if rotated {
                0
            } else {
                offset
            };
            TailStep {
                notice: if rotated {
                    Some(SourceNotice::Truncated)
                } else {
                    None
                },
                close_reader: rotated,
                offset: from,
                read: len > from,
            }
        },
    }
}

/// Decides what to do after polling a tailed file.
pub fn tail_step(offset: u64, file_len: Option<u64>) -> (r: TailStep)
    ensures
        r == tail_step_spec(offset, file_len),
{
    match file_len {
        None => TailStep {
            notice: Some(SourceNotice::Unavailable),
            close_reader: true,
            offset: 0,
            read: false,
        },
        Some(len) => {
            let rotated = len < offset;
            let from: u64 = if rotated {
                0
            } else {
                offset
            };
            TailStep {
                notice: if rotated {
                    Some(SourceNotice::Truncated)
                } else {
                    None
                },
                close_reader: rotated,
                offset: from,
                read: len > from,
            }
        },
    }
}

// ---------------------------------------------------------------------------
// Demo lines
// ---------------------------------------------------------------------------

/// The lines of the demo stream, in order.
pub open spec fn demo_line(i: int) -> Seq<char> {
    if i == 0 {
        "{\"level\": \"INFO\", \"msg\": \"Service started\", \"port\": 8080, \"env\": \"prod\"}"@
    } else if i == 1 {
        "{\"level\": \"WARN\", \"msg\": \"High memory usage\", \"usage\": \"85%\"}"@
    } else if i == 2 {
        "Standard text log line here (nginx style perhaps)"@
    } else if i == 3 {
        "{\"level\": \"ERROR\", \"msg\": \"DB Connection Failed\", \"error_code\": 500, \"details\": {\"retries\": 3}}"@
    } else {
        "{\"level\": \"DEBUG\", \"msg\": \"Payload received\", \"payload_size\": 1024}"@
    }
}

/// Number of demo lines in one round.
pub const DEMO_LINE_COUNT: usize = 5;

/// The lines of the demo stream, each prepared as a source line.
pub fn demo_lines() -> (r: Vec<String>)
    ensures
        r@.len() == DEMO_LINE_COUNT,
        forall|i: int| 0 <= i < DEMO_LINE_COUNT ==> #[trigger] r@[i]@ == truncated(demo_line(i)),
{
    let mut r: Vec<String> = Vec::new();
    let mut i: usize = 0;
    while i < DEMO_LINE_COUNT
        invariant
            i <= DEMO_LINE_COUNT,
            r@.len() == i,
            forall|k: int| 0 <= k < i ==> #[trigger] r@[k]@ == truncated(demo_line(k)),
        decreases DEMO_LINE_COUNT - i,
    {
        let text: &str = if i == 0 {
            "{\"level\": \"INFO\", \"msg\": \"Service started\", \"port\": 8080, \"env\": \"prod\"}"
        } else if i == 1 {
            "{\"level\": \"WARN\", \"msg\": \"High memory usage\", \"usage\": \"85%\"}"
        } else if i == 2 {
            "Standard text log line here (nginx style perhaps)"
        } else if i == 3 {
            "{\"level\": \"ERROR\", \"msg\": \"DB Connection Failed\", \"error_code\": 500, \"details\": {\"retries\": 3}}"
        } else {
            "{\"level\": \"DEBUG\", \"msg\": \"Payload received\", \"payload_size\": 1024}"
        };
        let mut line = string_of(chars_of(text).as_slice());
        truncate_line(&mut line);
        r.push(line);
        i = i + 1;
    }
    r
}

// ---------------------------------------------------------------------------
// Choice of source
// ---------------------------------------------------------------------------

/// Where the logs are read from.
#[derive(Clone, Copy, Debug, PartialEq, Eq, Structural)]
pub enum SourcePlan {
    /// Tail the files given.
    Files,
    /// Read the lines piped into standard input.
    Stdin,
    /// Generate the demo stream.
    Demo,
}

/// Chooses the source: the files when any are given, else standard input
/// when it is piped, else the demo stream.
pub fn plan_sources(file_count: usize, stdin_is_terminal: bool) -> (r: SourcePlan)
    ensures
        file_count > 0 ==> r == SourcePlan::Files,
        file_count == 0 && !stdin_is_terminal ==> r == SourcePlan::Stdin,
        file_count == 0 && stdin_is_terminal ==> r == SourcePlan::Demo,
{
    if file_count > 0 {
        SourcePlan::Files
    } else if !stdin_is_terminal {
        SourcePlan::Stdin
    } else {
        SourcePlan::Demo
    }
}

} // verus!

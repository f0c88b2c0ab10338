//! Application state: the bounded log buffer, filtering, scrolling and the
//! status of the last export.

use vstd::prelude::*;

use std::collections::VecDeque;

use crate::config::MAX_LOG_BUFFER_SIZE;
use crate::parser::{next_filter_of, severity_of, LogEntry, LogLevel};
use crate::text::{
    chars_of, contains, contains_seq, decimal, lowercase, push_chars, push_decimal,
    push_str_chars, to_lowercase,
};
use crate::theme::{preset_spec, Theme};

verus! {

// ---------------------------------------------------------------------------
// Outside items: regular expressions and paths
// ---------------------------------------------------------------------------

#[verifier::external_type_specification]
#[verifier::external_body]
pub struct ExRegex(regex::Regex);

#[verifier::external_type_specification]
#[verifier::external_body]
pub struct ExPathBuf(std::path::PathBuf);

/// What `regex::Regex::new` compiles from a pattern (`None` when it rejects it).
pub uninterp spec fn regex_compiled(pattern: Seq<char>) -> Option<regex::Regex>;

/// What `Regex::is_match` answers for a compiled regex and a text.
pub uninterp spec fn regex_matches(re: regex::Regex, text: Seq<char>) -> bool;

/// What `PathBuf::from` builds from a text.
pub uninterp spec fn path_from_text(s: Seq<char>) -> std::path::PathBuf;

/// Calls `regex::Regex::new`; the compiled regex (or the rejection) is named
/// by `regex_compiled`.
#[verifier::external_body]
pub(crate) fn regex_new(pattern: &str) -> (r: Option<regex::Regex>)
    ensures
        r == regex_compiled(pattern@),
{
    regex::Regex::new(pattern).ok()
}

/// Calls `Regex::is_match`; the answer is named by `regex_matches`.
#[verifier::external_body]
pub(crate) fn regex_is_match(re: &regex::Regex, text: &str) -> (b: bool)
    ensures
        b == regex_matches(*re, text@),
{
    re.is_match(text)
}

/// Calls `std::path::PathBuf::from`; the path is named by `path_from_text`.
#[verifier::external_body]
fn path_buf_from(s: &str) -> (p: std::path::PathBuf)
    ensures
        p == path_from_text(s@),
{
    std::path::PathBuf::from(s)
}

// ---------------------------------------------------------------------------
// Text matching
// ---------------------------------------------------------------------------

/// Text matching strategy, compiled from the filter input.
pub enum TextMatcher {
    /// No text filter active
    All,
    /// Case-insensitive substring match (the lower-cased query)
    Substring(String),
    /// Compiled regex pattern
    Regex(regex::Regex),
    /// Invalid regex (matches nothing)
    Invalid,
}

/// Whether a matcher admits a text.
pub open spec fn matcher_admits(m: TextMatcher, text: Seq<char>) -> bool {
    match m {
        TextMatcher::All => true,
        TextMatcher::Substring(q) => contains_seq(lowercase(text), q@),
        TextMatcher::Regex(re) => regex_matches(re, text),
        TextMatcher::Invalid => false,
    }
}

/// The pattern compiled in regex mode: the input made case-insensitive.
pub open spec fn regex_pattern(input: Seq<char>) -> Seq<char> {
    "(?i)"@ + input
}

/// The matcher compiled from an input and a mode: none for an empty input, a
/// case-insensitive regex in regex mode (invalid when it does not compile),
/// else a case-insensitive substring.
pub open spec fn matcher_compiled_from(input: Seq<char>, use_regex: bool, m: TextMatcher) -> bool {
    if input.len() == 0 {
        m is All
    } else if use_regex {
        match regex_compiled(regex_pattern(input)) {
            Some(re) => m == TextMatcher::Regex(re),
            None => m is Invalid,
        }
    } else {
        m matches TextMatcher::Substring(q) && q@ == lowercase(input)
    }
}

/// Whether an entry's level passes the minimum-level filter.
pub open spec fn level_admits(min: Option<LogLevel>, level: LogLevel) -> bool {
    match min {
        None => true,
        Some(m) => severity_of(level) <= severity_of(m),
    }
}

/// The filter that `cycle_log_level` moves to.
pub open spec fn cycled_level(min: Option<LogLevel>) -> Option<LogLevel> {
    match min {
        None => Some(LogLevel::Error),
        Some(l) => next_filter_of(l),
    }
}

/// `n - 1`, or zero.
pub open spec fn sat_dec(n: int) -> int {
    if n > 0 {
        n - 1
    } else {
        0
    }
}

// ---------------------------------------------------------------------------
// App
// ---------------------------------------------------------------------------

/// The input mode for the application.
#[derive(PartialEq, Eq, Debug, Clone, Copy, Structural)]
pub enum InputMode {
    /// Normal mode for navigation and viewing
    Normal,
    /// Editing mode for entering search queries
    Editing,
}

/// The main application state.
pub struct App {
    /// Current input mode (Normal or Editing)
    pub input_mode: InputMode,
    /// User input buffer for search queries
    pub input_buffer: String,
    /// Rolling buffer of log entries
    pub logs: VecDeque<LogEntry>,
    /// Current scroll position (an index into the filtered entries)
    pub scroll: usize,
    /// Whether to automatically scroll to the latest logs
    pub auto_scroll: bool,
    /// Flag to signal the application should quit
    pub should_quit: bool,
    /// Total number of logs processed
    pub logs_processed: u64,
    /// Visible height of the log area in lines
    pub visible_height: u16,
    /// Visible width of the log area in columns
    pub visible_width: u16,
    /// Whether line wrapping is enabled
    pub line_wrap: bool,
    /// Minimum log level filter (None = show all)
    pub min_log_level: Option<LogLevel>,
    /// Whether to use regex for text filtering
    pub use_regex: bool,
    /// Label describing the log source (e.g., "file: app.log", "stdin", "demo")
    pub source_label: String,
    /// Directory for exported log files
    pub export_dir: std::path::PathBuf,
    /// Transient feedback message from the last export operation
    pub last_export_message: Option<String>,
    /// Whether to display relative timestamps before log entries
    pub show_timestamps: bool,
    /// Current color theme
    pub theme: Theme,
    /// Cached text matcher, rebuilt by `rebuild_matcher` when `input_buffer`
    /// or `use_regex` changes.
    pub cached_matcher: TextMatcher,
}

/// A snapshot of the application state, with texts as character sequences.
pub struct AppView {
    pub input_mode: InputMode,
    pub input_buffer: Seq<char>,
    pub logs: Seq<LogEntry>,
    pub scroll: usize,
    pub auto_scroll: bool,
    pub should_quit: bool,
    pub logs_processed: u64,
    pub visible_height: u16,
    pub visible_width: u16,
    pub line_wrap: bool,
    pub min_log_level: Option<LogLevel>,
    pub use_regex: bool,
    pub source_label: Seq<char>,
    pub export_dir: std::path::PathBuf,
    pub last_export_message: Option<Seq<char>>,
    pub show_timestamps: bool,
    pub theme: Theme,
    pub matcher: TextMatcher,
}

/// The view of an optional string.
pub open spec fn opt_view(s: Option<String>) -> Option<Seq<char>> {
    match s {
        Some(t) => Some(t@),
        None => None,
    }
}

impl View for App {
    type V = AppView;

    open spec fn view(&self) -> AppView {
        AppView {
            input_mode: self.input_mode,
            input_buffer: self.input_buffer@,
            logs: self.logs@,
            scroll: self.scroll,
            auto_scroll: self.auto_scroll,
            should_quit: self.should_quit,
            logs_processed: self.logs_processed,
            visible_height: self.visible_height,
            visible_width: self.visible_width,
            line_wrap: self.line_wrap,
            min_log_level: self.min_log_level,
            use_regex: self.use_regex,
            source_label: self.source_label@,
            export_dir: self.export_dir,
            last_export_message: opt_view(self.last_export_message),
            show_timestamps: self.show_timestamps,
            theme: self.theme,
            matcher: self.cached_matcher,
        }
    }
}

/// Whether an entry passes the level filter and the text filter of a state.
pub open spec fn visible_in(v: AppView) -> spec_fn(LogEntry) -> bool {
    |e: LogEntry| level_admits(v.min_log_level, e.level) && matcher_admits(v.matcher, e.pretty@)
}

/// The entries of a state that pass its filters, in buffer order.
pub open spec fn filtered_of(v: AppView) -> Seq<LogEntry> {
    v.logs.filter(visible_in(v))
}

/// The largest scroll position of a state: the index of its last filtered entry, or 0.
pub open spec fn max_scroll_of(v: AppView) -> int {
    sat_dec(filtered_of(v).len() as int)
}

/// One step down, unless already at (or past) the last entry.
pub open spec fn scrolled_down(scroll: int, max: int) -> int {
    if scroll < max {
        scroll + 1
    } else {
        scroll
    }
}

/// `n` steps down, stopping at the last entry.
pub open spec fn scrolled_down_by(scroll: int, n: int, max: int) -> int {
    if scroll + n < max {
        scroll + n
    } else {
        max
    }
}

/// `n` steps up, stopping at the top.
pub open spec fn scrolled_up_by(scroll: int, n: int) -> int {
    if scroll >= n {
        scroll - n
    } else {
        0
    }
}

/// The scroll position brought back within `[0, max]`.
pub open spec fn clamped(scroll: int, max: int) -> int {
    if scroll < max {
        scroll
    } else {
        max
    }
}

/// The buffer after adding an entry: the oldest entry goes when it is full.
pub open spec fn buffer_after_push(logs: Seq<LogEntry>, e: LogEntry) -> Seq<LogEntry> {
    if logs.len() >= MAX_LOG_BUFFER_SIZE {
        logs.drop_first().push(e)
    } else {
        logs.push(e)
    }
}

/// The state after an entry has been added to the buffer.
pub open spec fn after_entry(o: AppView, e: LogEntry) -> AppView {
    AppView {
        logs: buffer_after_push(o.logs, e),
        scroll: (if o.logs.len() >= MAX_LOG_BUFFER_SIZE {
            sat_dec(o.scroll as int)
        } else {
            o.scroll as int
        }) as usize,
        logs_processed: (o.logs_processed + 1) as u64,
        ..o
    }
}

impl App {
    /// The cached text matcher.
    pub open spec fn matcher(&self) -> TextMatcher {
        self.cached_matcher
    }

    /// Whether an entry passes both the level filter and the text filter.
    pub open spec fn visible(&self, e: LogEntry) -> bool {
        level_admits(self.min_log_level, e.level) && matcher_admits(self.matcher(), e.pretty@)
    }

    /// The visibility test as a function.
    pub open spec fn visible_pred(&self) -> spec_fn(LogEntry) -> bool {
        visible_in(self@)
    }

    /// The entries that pass the filters, in buffer order.
    pub open spec fn filtered(&self) -> Seq<LogEntry> {
        filtered_of(self@)
    }

    /// The largest scroll position: the index of the last filtered entry, or 0.
    pub open spec fn max_scroll(&self) -> int {
        max_scroll_of(self@)
    }

    /// The state of a freshly started viewer: normal mode, empty filter and
    /// buffer, following the end of the log, wrapping lines, no level filter,
    /// the dark theme, exports into the current directory.
    pub open spec fn is_initial(&self) -> bool {
        &&& self.input_mode == InputMode::Normal
        &&& self.input_buffer@.len() == 0
        &&& self.logs@.len() == 0
        &&& self.scroll == 0
        &&& self.auto_scroll
        &&& !self.should_quit
        &&& self.logs_processed == 0
        &&& self.visible_height == 20
        &&& self.visible_width == 80
        &&& self.line_wrap
        &&& self.min_log_level is None
        &&& !self.use_regex
        &&& self.source_label@.len() == 0
        &&& self.export_dir == path_from_text("."@)
        &&& self.last_export_message is None
        &&& !self.show_timestamps
        &&& self.theme == preset_spec(0)
        &&& self.matcher() is All
    }

    /// Creates a new `App` instance with default values.
    pub fn new() -> (app: App)
        ensures
            app.is_initial(),
    {
        App {
            input_mode: InputMode::Normal,
            input_buffer: String::new(),
            logs: VecDeque::with_capacity(MAX_LOG_BUFFER_SIZE),
            scroll: 0,
            auto_scroll: true,
            should_quit: false,
            logs_processed: 0,
            visible_height: 20,
            visible_width: 80,
            line_wrap: true,
            min_log_level: None,
            use_regex: false,
            source_label: String::new(),
            export_dir: path_buf_from("."),
            last_export_message: None,
            show_timestamps: false,
            theme: Theme::dark(),
            cached_matcher: TextMatcher::All,
        }
    }

    /// Compiles a text matcher from the current input buffer and mode.
    fn compile_matcher(&self) -> (m: TextMatcher)
        ensures
            matcher_compiled_from(self.input_buffer@, self.use_regex, m),
    {
        if self.input_buffer.as_str().is_empty() {
            return TextMatcher::All;
        }
        if self.use_regex {
            let mut pattern = String::new();
            push_str_chars(&mut pattern, "(?i)");
            push_str_chars(&mut pattern, self.input_buffer.as_str());
            match regex_new(pattern.as_str()) {
                Some(re) => TextMatcher::Regex(re),
                None => TextMatcher::Invalid,
            }
        } else {
            TextMatcher::Substring(to_lowercase(self.input_buffer.as_str()))
        }
    }

    /// Rebuilds the cached text matcher from the current input and mode.
    ///
    /// Must be called after any change to `input_buffer` or `use_regex`.
    pub fn rebuild_matcher(&mut self)
        ensures
            matcher_compiled_from(old(self)@.input_buffer, old(self)@.use_regex, final(self)@.matcher),
            final(self)@ == (AppView { matcher: final(self)@.matcher, ..old(self)@ }),
    {
        self.cached_matcher = self.compile_matcher();
    }

    /// Adds a new log entry to the buffer.
    ///
    /// When the buffer is full, the oldest entry is removed and the scroll
    /// position moves up by one to keep pointing at the same entry.
    pub fn on_log(&mut self, entry: LogEntry)
        requires
            old(self).logs_processed < u64::MAX,
        ensures
            final(self)@ == after_entry(old(self)@, entry),
    {
        if self.logs.len() >= MAX_LOG_BUFFER_SIZE {
            self.logs.pop_front();
            self.scroll = if self.scroll > 0 {
                self.scroll - 1
            } else {
                0
            };
        }
        self.logs.push_back(entry);
        self.logs_processed = self.logs_processed + 1;
    }

    /// Checks if an entry matches the current log level filter.
    fn matches_level(&self, entry: &LogEntry) -> (b: bool)
        ensures
            b == level_admits(self.min_log_level, entry.level),
    {
        match self.min_log_level {
            None => true,
            Some(min) => entry.level.severity() <= min.severity(),
        }
    }

    /// Checks if an entry matches the text filter.
    fn matches_text(entry: &LogEntry, matcher: &TextMatcher) -> (b: bool)
        ensures
            b == matcher_admits(*matcher, entry.pretty@),
    {
        match matcher {
            TextMatcher::All => true,
            TextMatcher::Substring(q) => {
                let lower = to_lowercase(entry.pretty.as_str());
                contains(&chars_of(lower.as_str()), &chars_of(q.as_str()))
            },
            TextMatcher::Regex(re) => regex_is_match(re, entry.pretty.as_str()),
            TextMatcher::Invalid => false,
        }
    }

    /// Whether an entry passes both filters.
    fn is_visible(&self, entry: &LogEntry) -> (b: bool)
        ensures
            b == self.visible(*entry),
    {
        self.matches_level(entry) && Self::matches_text(entry, &self.cached_matcher)
    }

    /// Returns the filtered log entries based on text query and log level.
    pub fn get_filtered_logs(&self) -> (r: Vec<&LogEntry>)
        ensures
            r@.map_values(|e: &LogEntry| *e) == self.filtered(),
    {
        let mut out: Vec<&LogEntry> = Vec::new();
        let n = self.logs.len();
        let mut i: usize = 0;
        while i < n
            invariant
                n == self.logs@.len(),
                i <= n,
                out@.map_values(|e: &LogEntry| *e) == self.logs@.take(i as int).filter(
                    self.visible_pred(),
                ),
            decreases n - i,
        {
            let e = &self.logs[i];
            let ghost before = out@.map_values(|e: &LogEntry| *e);
            proof {
                assert(self.logs@.take(i + 1) == self.logs@.take(i as int).push(*e));
                self.logs@.take(i as int).lemma_filter_push(*e, self.visible_pred());
            }
            if self.is_visible(e) {
                out.push(e);
                proof {
                    assert(out@.map_values(|e: &LogEntry| *e) =~= before.push(*e));
                }
            }
            i = i + 1;
        }
        proof {
            assert(self.logs@.take(n as int) == self.logs@);
        }
        out
    }

    /// Returns the number of log entries matching the current filters.
    pub fn get_filtered_count(&self) -> (r: usize)
        ensures
            r == self.filtered().len(),
    {
        let mut count: usize = 0;
        let n = self.logs.len();
        let mut i: usize = 0;
        while i < n
            invariant
                n == self.logs@.len(),
                i <= n,
                count == self.logs@.take(i as int).filter(self.visible_pred()).len(),
                count <= i,
            decreases n - i,
        {
            let e = &self.logs[i];
            proof {
                assert(self.logs@.take(i + 1) == self.logs@.take(i as int).push(*e));
                self.logs@.take(i as int).lemma_filter_push(*e, self.visible_pred());
            }
            if self.is_visible(e) {
                count = count + 1;
            }
            i = i + 1;
        }
        proof {
            assert(self.logs@.take(n as int) == self.logs@);
        }
        count
    }

    /// Scrolls the view up by one entry and disables auto-scroll.
    pub fn scroll_up(&mut self)
        ensures
            final(self)@ == (AppView {
                scroll: sat_dec(old(self).scroll as int) as usize,
                auto_scroll: false,
                ..old(self)@
            }),
    {
        self.auto_scroll = false;
        if self.scroll > 0 {
            self.scroll = self.scroll - 1;
        }
    }

    /// Scrolls the view down by one entry, stopping at the last filtered entry.
    pub fn scroll_down(&mut self)
        ensures
            final(self)@ == (AppView {
                scroll: scrolled_down(old(self).scroll as int, old(self).max_scroll()) as usize,
                ..old(self)@
            }),
    {
        let count = self.get_filtered_count();
        let max_scroll = if count > 0 {
            count - 1
        } else {
            0
        };
        if self.scroll < max_scroll {
            self.scroll = self.scroll + 1;
        }
    }

    /// Scrolls up by `n` entries and disables auto-scroll.
    pub fn scroll_up_by(&mut self, n: usize)
        ensures
            final(self)@ == (AppView {
                scroll: scrolled_up_by(old(self).scroll as int, n as int) as usize,
                auto_scroll: false,
                ..old(self)@
            }),
    {
        self.auto_scroll = false;
        self.scroll = if self.scroll >= n {
            self.scroll - n
        } else {
            0
        };
    }

    /// Scrolls down by `n` entries, clamped to the last filtered entry.
    pub fn scroll_down_by(&mut self, n: usize)
        requires
            old(self).scroll + n <= usize::MAX,
        ensures
            final(self)@ == (AppView {
                scroll: scrolled_down_by(old(self).scroll as int, n as int, old(self).max_scroll()) as usize,
                ..old(self)@
            }),
    {
        let count = self.get_filtered_count();
        let max_scroll = if count > 0 {
            count - 1
        } else {
            0
        };
        let target = self.scroll + n;
        self.scroll = if target < max_scroll {
            target
        } else {
            max_scroll
        };
    }

    /// Jumps to the top of the log buffer and disables auto-scroll.
    pub fn scroll_to_top(&mut self)
        ensures
            final(self)@ == (AppView { scroll: 0, auto_scroll: false, ..old(self)@ }),
    {
        self.auto_scroll = false;
        self.scroll = 0;
    }

    /// Jumps to the last filtered entry and re-enables auto-scroll.
    pub fn scroll_to_bottom(&mut self)
        ensures
            final(self)@ == (AppView {
                scroll: old(self).max_scroll() as usize,
                auto_scroll: true,
                ..old(self)@
            }),
    {
        let count = self.get_filtered_count();
        self.scroll = if count > 0 {
            count - 1
        } else {
            0
        };
        self.auto_scroll = true;
    }

    /// Clamps `scroll` so it does not exceed the last filtered entry index.
    pub fn clamp_scroll(&mut self)
        ensures
            final(self)@ == (AppView {
                scroll: clamped(old(self).scroll as int, old(self).max_scroll()) as usize,
                ..old(self)@
            }),
    {
        let count = self.get_filtered_count();
        if count == 0 {
            self.scroll = 0;
        } else {
            self.scroll = if self.scroll < count - 1 {
                self.scroll
            } else {
                count - 1
            };
        }
    }

    /// Cycles the minimum log level filter: all, Error, Warn, Info, Debug, all.
    pub fn cycle_log_level(&mut self)
        ensures
            final(self)@ == (AppView {
                min_log_level: cycled_level(old(self).min_log_level),
                ..old(self)@
            }),
    {
        self.min_log_level = match self.min_log_level {
            None => Some(LogLevel::Error),
            Some(level) => level.next_filter(),
        };
    }

    /// Clears the transient export feedback message.
    pub fn clear_export_message(&mut self)
        ensures
            final(self)@ == (AppView { last_export_message: None, ..old(self)@ }),
    {
        self.last_export_message = None;
    }

    /// Returns true if the cached text matcher is an invalid regex.
    pub fn is_regex_invalid(&self) -> (b: bool)
        ensures
            b == (self.matcher() is Invalid),
    {
        match self.cached_matcher {
            TextMatcher::Invalid => true,
            _ => false,
        }
    }

    /// Returns the cached regex, if the matcher is in regex mode.
    pub fn highlight_regex(&self) -> (r: Option<&regex::Regex>)
        ensures
            match self.matcher() {
                TextMatcher::Regex(re) => r == Some(&re),
                _ => r is None,
            },
    {
        match &self.cached_matcher {
            TextMatcher::Regex(re) => Some(re),
            _ => None,
        }
    }
}

impl Default for App {
    fn default() -> (app: App)
        ensures
            app.is_initial(),
    {
        App::new()
    }
}

// ---------------------------------------------------------------------------
// Export
// ---------------------------------------------------------------------------

/// How one entry is written to an export: its display text, after a
/// `[source] ` prefix when it has a source.
pub open spec fn export_entry_text(e: LogEntry) -> Seq<char> {
    match e.source {
        Some(src) => "["@ + src@ + "] "@ + e.pretty@,
        None => e.pretty@,
    }
}

/// The entries written one after the other, separated by line breaks.
pub open spec fn joined_entries(es: Seq<LogEntry>) -> Seq<char>
    decreases es.len(),
{
    if es.len() == 0 {
        Seq::empty()
    } else if es.len() == 1 {
        export_entry_text(es[0])
    } else {
        joined_entries(es.drop_last()) + "\n"@ + export_entry_text(es.last())
    }
}

/// The content of an export file for the given entries.
pub open spec fn export_text(es: Seq<LogEntry>) -> Seq<char> {
    if es.len() == 0 {
        "# No log entries matched the current filter.\n"@
    } else {
        joined_entries(es)
    }
}

/// The word after the number of exported entries.
pub open spec fn entries_word(count: nat) -> Seq<char> {
    if count == 1 {
        "log"@
    } else {
        "logs"@
    }
}

/// The status message after an export: the count and path written, or the error.
pub open spec fn export_message(count: nat, outcome: Result<Seq<char>, Seq<char>>) -> Seq<char> {
    match outcome {
        Ok(path) => "Exported "@ + decimal(count) + " "@ + entries_word(count) + " \u{2192} "@ + path,
        Err(e) => "Export failed: "@ + e,
    }
}

/// The name of an export file: `smartlog_export_<stamp>_<seq>.log`.
pub open spec fn export_file_name_spec(stamp: Seq<char>, seq: nat) -> Seq<char> {
    "smartlog_export_"@ + stamp + "_"@ + decimal(seq) + ".log"@
}

/// The text and entry count of an export.
pub struct ExportContents {
    pub text: String,
    pub count: usize,
}

/// The name of an export file, from a time stamp and a sequence number.
pub fn export_file_name(stamp: &str, seq: u32) -> (r: String)
    ensures
        r@ == export_file_name_spec(stamp@, seq as nat),
{
    let mut r = String::new();
    push_str_chars(&mut r, "smartlog_export_");
    push_str_chars(&mut r, stamp);
    push_str_chars(&mut r, "_");
    push_decimal(&mut r, seq as u64);
    push_str_chars(&mut r, ".log");
    r
}

impl App {
    /// Builds the content of an export of the currently filtered entries.
    pub fn export_contents(&self) -> (r: ExportContents)
        ensures
            r.count == self.filtered().len(),
            r.text@ == export_text(self.filtered()),
    {
        let filtered = self.get_filtered_logs();
        let ghost es = filtered@.map_values(|e: &LogEntry| *e);
        let mut text = String::new();
        if filtered.len() == 0 {
            push_str_chars(&mut text, "# No log entries matched the current filter.\n");
            return ExportContents { text, count: 0 };
        }
        let mut i: usize = 0;
        while i < filtered.len()
            invariant
                es == filtered@.map_values(|e: &LogEntry| *e),
                es.len() == filtered@.len(),
                i <= filtered@.len(),
                text@ == joined_entries(es.take(i as int)),
            decreases filtered.len() - i,
        {
            let e = filtered[i];
            let ghost before = text@;
            proof {
                assert(es.take(i + 1).drop_last() == es.take(i as int));
                assert(es.take(i + 1).last() == *e);
            }
            if i > 0 {
                push_str_chars(&mut text, "\n");
            }
            match &e.source {
                Some(src) => {
                    push_str_chars(&mut text, "[");
                    push_str_chars(&mut text, src.as_str());
                    push_str_chars(&mut text, "] ");
                },
                None => {},
            }
            push_str_chars(&mut text, e.pretty.as_str());
            proof {
                if i == 0 {
                    assert(before == Seq::<char>::empty());
                    assert(text@ =~= export_entry_text(*e));
                } else {
                    assert(text@ =~= before + "\n"@ + export_entry_text(*e));
                }
            }
            i = i + 1;
        }
        proof {
            assert(es.take(filtered@.len() as int) == es);
        }
        ExportContents { text, count: filtered.len() }
    }

    /// Records the outcome of an export in the status message: on success the
    /// number of entries and the path written, on failure the error.
    pub fn record_export(&mut self, count: usize, outcome: Result<String, String>)
        ensures
            final(self)@ == (AppView {
                last_export_message: Some(
                    export_message(
                        count as nat,
                        match outcome {
                            Ok(p) => Ok(p@),
                            Err(e) => Err(e@),
                        },
                    ),
                ),
                ..old(self)@
            }),
    {
        let mut msg = String::new();
        match outcome {
            Ok(path) => {
                push_str_chars(&mut msg, "Exported ");
                push_decimal(&mut msg, count as u64);
                push_str_chars(&mut msg, " ");
                if count == 1 {
                    push_str_chars(&mut msg, "log");
                } else {
                    push_str_chars(&mut msg, "logs");
                }
                push_str_chars(&mut msg, " \u{2192} ");
                push_str_chars(&mut msg, path.as_str());
            },
            Err(e) => {
                push_str_chars(&mut msg, "Export failed: ");
                push_str_chars(&mut msg, e.as_str());
            },
        }
        self.last_export_message = Some(msg);
    }
}

} // verus!

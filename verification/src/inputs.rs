//! Keyboard input handling.

use vstd::prelude::*;

use crate::app::{
    clamped, cycled_level, matcher_compiled_from, max_scroll_of, sat_dec, scrolled_down,
    scrolled_down_by, scrolled_up_by, App, AppView, InputMode,
};
use crate::config::MAX_INPUT_BUFFER_SIZE;
use crate::text::{chars_of, string_of};
use crate::theme::next_spec;

verus! {

/// The keys that the application tells apart.
#[derive(Clone, Copy, Debug, PartialEq, Eq, Structural)]
pub enum KeyCode {
    Char(char),
    Up,
    Down,
    PageUp,
    PageDown,
    Home,
    End,
    Esc,
    Enter,
    Backspace,
    /// Any other key.
    Other,
}

/// Whether a key event is a press, an auto-repeat or a release.
#[derive(Clone, Copy, Debug, PartialEq, Eq, Structural)]
pub enum KeyEventKind {
    Press,
    Repeat,
    Release,
}

/// A keyboard event.
#[derive(Clone, Copy, Debug, PartialEq, Eq, Structural)]
pub struct KeyEvent {
    pub code: KeyCode,
    pub kind: KeyEventKind,
}

/// What is left to do after a key has been handled.
#[derive(Clone, Copy, Debug, PartialEq, Eq, Structural)]
pub enum KeyOutcome {
    /// The key has been fully handled.
    Done,
    /// The user asked to export the filtered entries.
    ExportRequested,
}

/// The state after the text filter inputs changed: the matcher is compiled
/// anew and the scroll position is clamped to the new filtered entries.
pub open spec fn refiltered(t: AppView, n: AppView) -> bool {
    &&& matcher_compiled_from(t.input_buffer, t.use_regex, n.matcher)
    &&& n == (AppView {
        matcher: n.matcher,
        scroll: clamped(t.scroll as int, max_scroll_of(AppView { matcher: n.matcher, ..t })) as usize,
        ..t
    })
}

/// The state after the scroll position is clamped to the filtered entries.
pub open spec fn reclamped(t: AppView) -> AppView {
    AppView { scroll: clamped(t.scroll as int, max_scroll_of(t)) as usize, ..t }
}

/// The effect of a key pressed in normal mode, on a state whose export
/// message has been cleared.
pub open spec fn normal_key_effect(c: AppView, n: AppView, code: KeyCode, out: KeyOutcome) -> bool {
    if code == KeyCode::Char('e') {
        out == KeyOutcome::ExportRequested && n == c
    } else {
        &&& out == KeyOutcome::Done
        &&& if code == KeyCode::Char('q') {
            n == (AppView { should_quit: true, ..c })
        } else if code == KeyCode::Char('/') {
            n == (AppView { input_mode: InputMode::Editing, ..c })
        } else if code == KeyCode::Up || code == KeyCode::Char('k') {
            n == (AppView { scroll: sat_dec(c.scroll as int) as usize, auto_scroll: false, ..c })
        } else if code == KeyCode::Down || code == KeyCode::Char('j') {
            n == (AppView { scroll: scrolled_down(c.scroll as int, max_scroll_of(c)) as usize, ..c })
        } else if code == KeyCode::PageUp {
            n == (AppView {
                scroll: scrolled_up_by(c.scroll as int, c.visible_height as int) as usize,
                auto_scroll: false,
                ..c
            })
        } else if code == KeyCode::PageDown {
            n == (AppView {
                scroll: scrolled_down_by(c.scroll as int, c.visible_height as int, max_scroll_of(c))
                    as usize,
                ..c
            })
        } else if code == KeyCode::Home || code == KeyCode::Char('g') {
            n == (AppView { scroll: 0, auto_scroll: false, ..c })
        } else if code == KeyCode::End || code == KeyCode::Char('G') {
            n == (AppView { scroll: max_scroll_of(c) as usize, auto_scroll: true, ..c })
        } else if code == KeyCode::Char('w') {
            n == (AppView { line_wrap: !c.line_wrap, ..c })
        } else if code == KeyCode::Char('l') {
            n == reclamped(AppView { min_log_level: cycled_level(c.min_log_level), ..c })
        } else if code == KeyCode::Char('r') {
            refiltered(AppView { use_regex: !c.use_regex, ..c }, n)
        } else if code == KeyCode::Char('t') {
            n == (AppView { show_timestamps: !c.show_timestamps, ..c })
        } else if code == KeyCode::Char('T') {
            n == (AppView { theme: next_spec(c.theme), ..c })
        } else if code == KeyCode::Esc {
            &&& n.auto_scroll
            &&& refiltered(AppView { input_buffer: Seq::empty(), ..c }, AppView { auto_scroll: c.auto_scroll, ..n })
        } else {
            n == c
        }
    }
}

/// The filter input after typing a character: it grows unless it is full.
pub open spec fn typed(input: Seq<char>, ch: char) -> Seq<char> {
    if input.len() < MAX_INPUT_BUFFER_SIZE {
        input.push(ch)
    } else {
        input
    }
}

/// The filter input after a backspace.
pub open spec fn erased(input: Seq<char>) -> Seq<char> {
    if input.len() > 0 {
        input.drop_last()
    } else {
        input
    }
}

/// The effect of a key pressed in editing mode, on a state whose export
/// message has been cleared.
pub open spec fn editing_key_effect(c: AppView, n: AppView, code: KeyCode) -> bool {
    match code {
        KeyCode::Enter => refiltered(AppView { input_mode: InputMode::Normal, ..c }, n),
        KeyCode::Char(ch) => refiltered(AppView { input_buffer: typed(c.input_buffer, ch), ..c }, n),
        KeyCode::Backspace => refiltered(AppView { input_buffer: erased(c.input_buffer), ..c }, n),
        KeyCode::Esc => {
            &&& n.auto_scroll
            &&& refiltered(
                AppView { input_mode: InputMode::Normal, input_buffer: Seq::empty(), ..c },
                AppView { auto_scroll: c.auto_scroll, ..n },
            )
        },
        _ => n == c,
    }
}

/// The effect of a key event: repeats and releases change nothing; a press
/// clears the export message and then acts according to the mode.
pub open spec fn key_effect(o: AppView, n: AppView, key: KeyEvent, out: KeyOutcome) -> bool {
    if key.kind != KeyEventKind::Press {
        n == o && out == KeyOutcome::Done
    } else {
        let c = AppView { last_export_message: None, ..o };
        match o.input_mode {
            InputMode::Normal => normal_key_effect(c, n, key.code, out),
            InputMode::Editing => editing_key_effect(c, n, key.code) && out == KeyOutcome::Done,
        }
    }
}

/// Paging down must not move past the largest index.
pub open spec fn key_fits(o: AppView, key: KeyEvent) -> bool {
    (key.kind == KeyEventKind::Press && o.input_mode == InputMode::Normal && key.code
        == KeyCode::PageDown) ==> o.scroll + o.visible_height <= usize::MAX
}

/// Removes the last character of a string, if any.
fn pop_char(s: &mut String)
    ensures
        final(s)@ == erased(old(s)@),
{
    let mut v = chars_of(s.as_str());
    if v.len() > 0 {
        v.pop();
    }
    *s = string_of(v.as_slice());
}

/// Counts the characters of a string.
fn char_count(s: &String) -> (n: usize)
    ensures
        n == s@.len(),
{
    chars_of(s.as_str()).len()
}

/// Handles a key pressed in normal mode.
fn handle_normal_key(app: &mut App, code: KeyCode) -> (out: KeyOutcome)
    requires
        old(app).input_mode == InputMode::Normal,
        code == KeyCode::PageDown ==> old(app).scroll + old(app).visible_height <= usize::MAX,
    ensures
        normal_key_effect(old(app)@, final(app)@, code, out),
{
    match code {
        KeyCode::Char('q') => {
            app.should_quit = true;
        },
        KeyCode::Char('/') => {
            app.input_mode = InputMode::Editing;
        },
        KeyCode::Up | KeyCode::Char('k') => app.scroll_up(),
        KeyCode::Down | KeyCode::Char('j') => app.scroll_down(),
        KeyCode::PageUp => app.scroll_up_by(app.visible_height as usize),
        KeyCode::PageDown => app.scroll_down_by(app.visible_height as usize),
        KeyCode::Home | KeyCode::Char('g') => app.scroll_to_top(),
        KeyCode::End | KeyCode::Char('G') => app.scroll_to_bottom(),
        KeyCode::Char('w') => {
            app.line_wrap = !app.line_wrap;
        },
        KeyCode::Char('l') => {
            app.cycle_log_level();
            app.clamp_scroll();
        },
        KeyCode::Char('r') => {
            app.use_regex = !app.use_regex;
            app.rebuild_matcher();
            app.clamp_scroll();
        },
        KeyCode::Char('e') => {
            return KeyOutcome::ExportRequested;
        },
        KeyCode::Char('t') => {
            app.show_timestamps = !app.show_timestamps;
        },
        KeyCode::Char('T') => {
            app.theme = app.theme.next();
        },
        KeyCode::Esc => {
            app.input_buffer = String::new();
            app.rebuild_matcher();
            app.clamp_scroll();
            app.auto_scroll = true;
        },
        _ => {},
    }
    KeyOutcome::Done
}

/// Handles a key pressed in editing mode.
fn handle_editing_key(app: &mut App, code: KeyCode)
    requires
        old(app).input_mode == InputMode::Editing,
    ensures
        editing_key_effect(old(app)@, final(app)@, code),
{
    match code {
        KeyCode::Enter => {
            app.input_mode = InputMode::Normal;
            app.rebuild_matcher();
            app.clamp_scroll();
        },
        KeyCode::Char(ch) => {
            if char_count(&app.input_buffer) < MAX_INPUT_BUFFER_SIZE {
                app.input_buffer.push(ch);
            }
            app.rebuild_matcher();
            app.clamp_scroll();
        },
        KeyCode::Backspace => {
            pop_char(&mut app.input_buffer);
            app.rebuild_matcher();
            app.clamp_scroll();
        },
        KeyCode::Esc => {
            app.input_mode = InputMode::Normal;
            app.input_buffer = String::new();
            app.rebuild_matcher();
            app.clamp_scroll();
            app.auto_scroll = true;
        },
        _ => {},
    }
}

/// Handles a keyboard event and updates the application state.
///
/// **Normal mode**: `q` quits, `/` enters editing, `k`/`j` or arrows scroll,
/// `PageUp`/`PageDown` scroll by page, `Home`/`g` jump to top, `End`/`G` jump to bottom,
/// `Esc` clears the search, `w` toggles line wrap, `l` cycles the log level filter,
/// `r` toggles regex mode, `e` asks for an export of the filtered logs, `t` toggles
/// relative timestamps, `T` cycles the color theme.
///
/// **Editing mode**: `Enter` applies the filter, `Esc` cancels and clears it,
/// characters are added to the input buffer (up to its maximum length).
pub fn handle_key_event(app: &mut App, key: KeyEvent) -> (out: KeyOutcome)
    requires
        key_fits(old(app)@, key),
    ensures
        key_effect(old(app)@, final(app)@, key, out),
{
    if key.kind != KeyEventKind::Press {
        return KeyOutcome::Done;
    }
    app.clear_export_message();
    match app.input_mode {
        InputMode::Normal => handle_normal_key(app, key.code),
        InputMode::Editing => {
            handle_editing_key(app, key.code);
            KeyOutcome::Done
        },
    }
}

} // verus!

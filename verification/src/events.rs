//! The decisions of the main loop: what an incoming log line and a terminal
//! event do to the application state.

use vstd::prelude::*;

use crate::app::{after_entry, sat_dec, scrolled_down, App, AppView, max_scroll_of};
use crate::inputs::{handle_key_event, key_effect, key_fits, KeyEvent, KeyOutcome};
use crate::parser::{parse_log, parsed_entry_matches, LogEntry};
use crate::timestamp::Timestamp;

verus! {

/// Number of consecutive terminal event errors after which the viewer quits.
pub const MAX_CONSECUTIVE_EVENT_ERRORS: u32 = 50;

/// Processes a message from the log channel: a line is parsed and added to
/// the buffer; `None` means the producers have ended. Returns whether the
/// channel is still open. The viewer keeps running when it closes.
pub fn handle_log_message<F: Fn(&serde_json::Number) -> Option<Timestamp>>(
    app: &mut App,
    maybe_line: Option<String>,
    epoch: &F,
) -> (open: bool)
    requires
        maybe_line is Some ==> old(app).logs_processed < u64::MAX,
        forall|n: serde_json::Number| call_requires(*epoch, (&n,)),
    ensures
        open == maybe_line is Some,
        match maybe_line {
            Some(line) => exists|e: LogEntry|
                parsed_entry_matches(line@, *epoch, e) && final(app)@ == after_entry(old(app)@, e),
            None => final(app)@ == old(app)@,
        },
{
    match maybe_line {
        Some(line) => {
            let ghost text = line@;
            let entry = parse_log(line, epoch);
            let ghost e = entry;
            app.on_log(entry);
            proof {
                assert(parsed_entry_matches(text, *epoch, e) && app@ == after_entry(old(app)@, e));
            }
            true
        },
        None => false,
    }
}

/// A terminal event, as far as the viewer tells them apart.
#[derive(Clone, Copy, Debug, PartialEq, Eq, Structural)]
pub enum TerminalEvent {
    /// A key event.
    Key(KeyEvent),
    /// The mouse wheel turned up.
    ScrollUp,
    /// The mouse wheel turned down.
    ScrollDown,
    /// Any other mouse event.
    OtherMouse,
    /// Any other event (focus, resize, paste).
    Other,
    /// The event stream reported an error.
    Error,
    /// The event stream has ended.
    Closed,
}

/// What is left to do after a terminal event: the count of consecutive
/// errors to carry on, and whether an export was asked for.
#[derive(Clone, Copy, Debug, PartialEq, Eq, Structural)]
pub struct TerminalOutcome {
    pub consecutive_errors: u32,
    pub export_requested: bool,
}

/// The effect of a terminal event: keys act as `handle_key_event` says, the
/// mouse wheel scrolls, and any event read resets the error count. An error
/// increments it and makes the viewer quit at the threshold; the end of the
/// stream makes it quit.
pub open spec fn terminal_effect(o: AppView, n: AppView, ev: TerminalEvent, errors: u32, out: TerminalOutcome) -> bool {
    match ev {
        TerminalEvent::Key(k) => {
            exists|ko: KeyOutcome|
                key_effect(o, n, k, ko) && out == (TerminalOutcome {
                    consecutive_errors: 0,
                    export_requested: ko == KeyOutcome::ExportRequested,
                })
        },
        TerminalEvent::ScrollUp => {
            &&& n == (AppView { scroll: sat_dec(o.scroll as int) as usize, auto_scroll: false, ..o })
            &&& out == (TerminalOutcome { consecutive_errors: 0, export_requested: false })
        },
        TerminalEvent::ScrollDown => {
            &&& n == (AppView { scroll: scrolled_down(o.scroll as int, max_scroll_of(o)) as usize, ..o })
            &&& out == (TerminalOutcome { consecutive_errors: 0, export_requested: false })
        },
        TerminalEvent::OtherMouse | TerminalEvent::Other => {
            &&& n == o
            &&& out == (TerminalOutcome { consecutive_errors: 0, export_requested: false })
        },
        TerminalEvent::Error => {
            &&& n == (AppView { should_quit: o.should_quit || errors + 1 >= MAX_CONSECUTIVE_EVENT_ERRORS, ..o })
            &&& out == (TerminalOutcome { consecutive_errors: (errors + 1) as u32, export_requested: false })
        },
        TerminalEvent::Closed => {
            &&& n == (AppView { should_quit: true, ..o })
            &&& out == (TerminalOutcome { consecutive_errors: errors, export_requested: false })
        },
    }
}

/// Processes a terminal event (keyboard, mouse, or error).
pub fn handle_terminal_event(app: &mut App, event: TerminalEvent, consecutive_errors: u32) -> (out:
    TerminalOutcome)
    requires
        event is Error ==> consecutive_errors < u32::MAX,
        event matches TerminalEvent::Key(k) ==> key_fits(old(app)@, k),
    ensures
        terminal_effect(old(app)@, final(app)@, event, consecutive_errors, out),
{
    match event {
        TerminalEvent::Key(key) => {
            let ko = handle_key_event(app, key);
            let out = TerminalOutcome {
                consecutive_errors: 0,
                export_requested: ko == KeyOutcome::ExportRequested,
            };
            proof {
                assert(key_effect(old(app)@, app@, key, ko));
            }
            out
        },
        TerminalEvent::ScrollUp => {
            app.scroll_up();
            TerminalOutcome { consecutive_errors: 0, export_requested: false }
        },
        TerminalEvent::ScrollDown => {
            app.scroll_down();
            TerminalOutcome { consecutive_errors: 0, export_requested: false }
        },
        TerminalEvent::OtherMouse | TerminalEvent::Other => {
            TerminalOutcome { consecutive_errors: 0, export_requested: false }
        },
        TerminalEvent::Error => {
            let new_count = consecutive_errors + 1;
            if new_count >= MAX_CONSECUTIVE_EVENT_ERRORS {
                app.should_quit = true;
            }
            TerminalOutcome { consecutive_errors: new_count, export_requested: false }
        },
        TerminalEvent::Closed => {
            app.should_quit = true;
            TerminalOutcome { consecutive_errors, export_requested: false }
        },
    }
}

} // verus!

//! The debug console: an in-memory log with scrollback, and its view
//! model.  Writing a log dump to disk happens outside the library.

use vstd::prelude::*;

use crate::commands::CommandId;
use crate::commands::Keymap;
use crate::commands::hints_of;
use crate::commands::join_with;
use crate::text::concat_str;
use crate::text::dec_digits;
use crate::text::usize_to_string;

verus! {

/// Severity of one log record.
#[derive(Debug, Clone, Copy, PartialEq, Eq, Structural)]
pub enum LogLevel {
    Error,
    Warn,
    Info,
    Debug,
    Trace,
}

/// One captured log record.
#[derive(Debug, Clone)]
pub struct OwnedLogRecord {
    /// Severity of the record.
    pub level: LogLevel,
    /// Message text.
    pub message: String,
    /// When the record was captured, milliseconds since the epoch.
    pub ts_millis: u64,
}

impl OwnedLogRecord {
    /// An exact copy of this record.
    pub fn duplicate(&self) -> (r: OwnedLogRecord)
        ensures
            r == *self,
    {
        OwnedLogRecord {
            level: self.level,
            message: self.message.clone(),
            ts_millis: self.ts_millis,
        }
    }
}

/// State of the debug console overlay.
#[derive(Debug, Clone)]
pub struct DebugConsoleState {
    /// Whether the console is shown.
    pub visible: bool,
    /// The captured records, oldest first.
    pub logs: Vec<OwnedLogRecord>,
    /// Scroll position: 0 shows the newest records.
    pub scroll_offset: usize,
    /// Rows available for records, for scroll bounds.
    pub visible_height: usize,
}

impl Default for DebugConsoleState {
    fn default() -> (r: Self)
        ensures
            !r.visible,
            r.logs@ == Seq::<OwnedLogRecord>::empty(),
            r.scroll_offset == 0,
            r.visible_height == 0,
    {
        DebugConsoleState { visible: false, logs: Vec::new(), scroll_offset: 0, visible_height: 0 }
    }
}

/// Actions of the debug console.
#[derive(Debug, Clone)]
pub enum DebugConsoleAction {
    /// Scroll toward newer records.
    NavigateNext,
    /// Scroll toward older records.
    NavigatePrevious,
    /// Jump to the oldest records.
    NavigateToTop,
    /// Jump to the newest records.
    NavigateToBottom,
    /// Clear all records.
    Clear,
    /// A new record was captured.
    LogAdded(OwnedLogRecord),
    /// Write the records to a file; performed by the shell around the
    /// library, so the state is unchanged.
    DumpLogs,
    /// The console was laid out with this many rows for records.
    SetVisibleHeight(usize),
}

/// How far back the console can scroll: to the oldest record still
/// fillling a screen, or to every record when no height is known.
pub open spec fn max_scroll(s: DebugConsoleState) -> nat {
    if s.visible_height > 0 {
        if s.logs@.len() >= s.visible_height {
            (s.logs@.len() - s.visible_height) as nat
        } else {
            0
        }
    } else {
        s.logs@.len()
    }
}

/// The state one debug-console action steps to.  The stored records are
/// compared by value: every transition either keeps, extends or clears
/// the record list.
pub open spec fn spec_console_step(s: DebugConsoleState, a: DebugConsoleAction) -> (
    bool,
    Seq<OwnedLogRecord>,
    int,
    int,
) {
    let ms = max_scroll(s);
    match a {
        DebugConsoleAction::NavigateNext => {
            let capped: int = if s.scroll_offset <= ms {
                s.scroll_offset as int
            } else {
                ms as int
            };
            (s.visible, s.logs@, if capped > 0 {
                capped - 1
            } else {
                0
            }, s.visible_height as int)
        },
        DebugConsoleAction::NavigatePrevious => (
            s.visible,
            s.logs@,
            if s.scroll_offset < ms {
                s.scroll_offset + 1
            } else {
                s.scroll_offset as int
            },
            s.visible_height as int,
        ),
        DebugConsoleAction::NavigateToTop => (s.visible, s.logs@, ms as int, s.visible_height as int),
        DebugConsoleAction::NavigateToBottom => (s.visible, s.logs@, 0, s.visible_height as int),
        DebugConsoleAction::Clear => (s.visible, Seq::empty(), 0, s.visible_height as int),
        DebugConsoleAction::LogAdded(rec) => (
            s.visible,
            s.logs@.push(rec),
            if s.scroll_offset > 0 && s.scroll_offset < usize::MAX {
                s.scroll_offset + 1
            } else {
                s.scroll_offset as int
            },
            s.visible_height as int,
        ),
        DebugConsoleAction::DumpLogs => (
            s.visible,
            s.logs@,
            s.scroll_offset as int,
            s.visible_height as int,
        ),
        DebugConsoleAction::SetVisibleHeight(h) => (s.visible, s.logs@, s.scroll_offset as int, h as int),
    }
}

/// Applies one debug-console action.  Scrolling clamps at both ends;
/// new records keep the view anchored unless it sits at the newest end.
pub fn reduce_debug_console(state: DebugConsoleState, action: &DebugConsoleAction) -> (r:
    DebugConsoleState)
    ensures
        ({
            let (vis, logs, scroll, height) = spec_console_step(state, *action);
            r.visible == vis && r.logs@ == logs && r.scroll_offset == scroll && r.visible_height
                == height
        }),
{
    let mut state = state;
    let max_scroll_now: usize = if state.visible_height > 0 {
        if state.logs.len() >= state.visible_height {
            state.logs.len() - state.visible_height
        } else {
            0
        }
    } else {
        state.logs.len()
    };
    match action {
        DebugConsoleAction::NavigateNext => {
            if state.scroll_offset > max_scroll_now {
                state.scroll_offset = max_scroll_now;
            }
            if state.scroll_offset > 0 {
                state.scroll_offset = state.scroll_offset - 1;
            }
        },
        DebugConsoleAction::NavigatePrevious => {
            if state.scroll_offset < max_scroll_now {
                state.scroll_offset = state.scroll_offset + 1;
            }
        },
        DebugConsoleAction::NavigateToTop => {
            state.scroll_offset = max_scroll_now;
        },
        DebugConsoleAction::NavigateToBottom => {
            state.scroll_offset = 0;
        },
        DebugConsoleAction::Clear => {
            state.logs.clear();
            state.scroll_offset = 0;
        },
        DebugConsoleAction::LogAdded(rec) => {
            state.logs.push(rec.duplicate());
            if state.scroll_offset > 0 && state.scroll_offset < usize::MAX {
                state.scroll_offset = state.scroll_offset + 1;
            }
        },
        DebugConsoleAction::DumpLogs => {},
        DebugConsoleAction::SetVisibleHeight(h) => {
            state.visible_height = *h;
        },
    }
    state
}

/// Pre-computed footer hints of the debug console.
#[derive(Debug, Clone)]
pub struct DebugConsoleFooterHints {
    /// Combined scroll hint (e.g. "j/k").
    pub scroll: String,
    /// Combined top/bottom hint (e.g. "gg/G").
    pub top_bottom: String,
    /// Close hint (e.g. "`").
    pub close: String,
}

/// The hint text of a command: its bound chords joined with `/`, or the
/// fallback when nothing is bound.
pub open spec fn hint_or(bindings: Seq<crate::commands::KeyBinding>, command: CommandId, fallback:
    Seq<char>) -> Seq<char> {
    if hints_of(bindings, command).len() == 0 {
        fallback
    } else {
        join_with(hints_of(bindings, command), '/')
    }
}

/// The hint for one command, with a fallback.
fn hint_for(keymap: &Keymap, command: CommandId, fallback: &str) -> (r: String)
    ensures
        r@ == hint_or(keymap.bindings@, command, fallback@),
{
    match keymap.compact_hint_for_command(command) {
        Some(s) => s,
        None => fallback.to_owned(),
    }
}

/// View model of the debug console: the visible slice of the records and
/// ready-made footer hints.
pub struct DebugConsoleViewModel<'a> {
    /// The console state shown.
    pub state: &'a DebugConsoleState,
    /// Pre-computed footer hints.
    pub footer_hints: DebugConsoleFooterHints,
}

impl<'a> DebugConsoleViewModel<'a> {
    /// Builds the view model, deriving footer hints from the keymap.
    pub fn new(state: &'a DebugConsoleState, keymap: &Keymap) -> (r: DebugConsoleViewModel<'a>)
        ensures
            r.state == state,
            r.footer_hints.scroll@ == hint_or(
                keymap.bindings@,
                CommandId::NavigateNext,
                "j/↓"@,
            ) + "/"@ + hint_or(keymap.bindings@, CommandId::NavigatePrevious, "k/↑"@),
            r.footer_hints.top_bottom@ == hint_or(keymap.bindings@, CommandId::NavigateToTop, "gg"@)
                + "/"@ + hint_or(keymap.bindings@, CommandId::NavigateToBottom, "G"@),
            r.footer_hints.close@ == hint_or(
                keymap.bindings@,
                CommandId::DebugToggleConsoleView,
                "`"@,
            ),
    {
        let down = hint_for(keymap, CommandId::NavigateNext, "j/↓");
        let up = hint_for(keymap, CommandId::NavigatePrevious, "k/↑");
        let top = hint_for(keymap, CommandId::NavigateToTop, "gg");
        let bottom = hint_for(keymap, CommandId::NavigateToBottom, "G");
        let close = hint_for(keymap, CommandId::DebugToggleConsoleView, "`");
        let scroll = concat_str(concat_str(down.as_str(), "/").as_str(), up.as_str());
        let top_bottom = concat_str(concat_str(top.as_str(), "/").as_str(), bottom.as_str());
        DebugConsoleViewModel {
            state,
            footer_hints: DebugConsoleFooterHints { scroll, top_bottom, close },
        }
    }

    /// The records visible at the current scroll position: the newest
    /// ones when the offset is 0, older ones as it grows, capped so the
    /// first record can reach the top of the screen.
    pub fn visible_logs(&self, available_height: usize) -> (r: Vec<OwnedLogRecord>)
        ensures
            ({
                let total = self.state.logs@.len();
                let cap: nat = if total >= available_height {
                    (total - available_height) as nat
                } else {
                    0
                };
                let eff: nat = if self.state.scroll_offset <= cap {
                    self.state.scroll_offset as nat
                } else {
                    cap
                };
                let end: int = total - eff;
                let start: int = if end >= available_height {
                    end - available_height
                } else {
                    0
                };
                (total == 0 || available_height == 0) ==> r@ == Seq::<OwnedLogRecord>::empty()
            }),
            ({
                let total = self.state.logs@.len();
                let cap: nat = if total >= available_height {
                    (total - available_height) as nat
                } else {
                    0
                };
                let eff: nat = if self.state.scroll_offset <= cap {
                    self.state.scroll_offset as nat
                } else {
                    cap
                };
                let end: int = total - eff;
                let start: int = if end >= available_height {
                    end - available_height
                } else {
                    0
                };
                (total > 0 && available_height > 0) ==> r@ == self.state.logs@.subrange(start, end)
            }),
    {
        let total = self.state.logs.len();
        let mut out: Vec<OwnedLogRecord> = Vec::new();
        if total == 0 || available_height == 0 {
            return out;
        }
        let cap: usize = if total >= available_height {
            total - available_height
        } else {
            0
        };
        let eff: usize = if self.state.scroll_offset <= cap {
            self.state.scroll_offset
        } else {
            cap
        };
        let end: usize = total - eff;
        let start: usize = if end >= available_height {
            end - available_height
        } else {
            0
        };
        let mut i: usize = start;
        while i < end
            invariant
                start <= i <= end,
                end <= self.state.logs@.len(),
                out@ == self.state.logs@.subrange(start as int, i as int),
            decreases end - i,
        {
            let rec = self.state.logs[i].duplicate();
            proof {
                assert(self.state.logs@.subrange(start as int, i + 1) =~= self.state.logs@.subrange(
                    start as int,
                    i as int,
                ).push(self.state.logs@[i as int]));
            }
            out.push(rec);
            i = i + 1;
        }
        out
    }

    /// The console title, with a scroll indicator when scrolled back.
    pub fn title(&self) -> (r: String)
        ensures
            self.state.scroll_offset == 0 ==> r@ == " Debug Console (c to clear) "@,
            self.state.scroll_offset > 0 ==> r@ == " Debug Console (c to clear) - ↓"@
                + dec_digits(
                self.state.scroll_offset as nat,
            ) + " "@,
    {
        if self.state.scroll_offset > 0 {
            let num = usize_to_string(self.state.scroll_offset);
            let head = concat_str(" Debug Console (c to clear) - ↓", num.as_str());
            concat_str(head.as_str(), " ")
        } else {
            let r = String::from_str(" Debug Console (c to clear) ");
            r
        }
    }
}

} // verus!

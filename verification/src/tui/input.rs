//! From key presses to messages, with the one two-key sequence the
//! interface knows: `u` followed by a digit.
use vstd::prelude::*;

use crate::tui::model::{Mode, TuiMessage};

verus! {

/// A key as the terminal reports it.
#[derive(Debug, Clone, Copy, PartialEq, Eq, Structural)]
pub enum KeyCode {
    Char(char),
    Up,
    Down,
    Left,
    Right,
    Home,
    End,
    Enter,
    Esc,
    Tab,
    BackTab,
    Backspace,
    Other,
}

/// A key press, with whether Control was held.
#[derive(Debug, Clone, Copy, PartialEq, Eq, Structural)]
pub struct KeyPress {
    pub code: KeyCode,
    pub control: bool,
}

/// A terminal event: a key press, a resize, or anything else (releases,
/// mouse, focus).
#[derive(Debug, Clone, Copy, PartialEq, Eq, Structural)]
pub enum InputEvent {
    Key(KeyPress),
    Resize(u16, u16),
    Other,
}

/// How long a pending `u` waits for a digit, in milliseconds.
pub const SEQUENCE_DEADLINE_MS: u64 = 300;

/// How long to wait for input when nothing is pending, in milliseconds.
pub const IDLE_TIMEOUT_MS: u64 = 60000;

/// The message of a key in the tree view.
pub open spec fn normal_message(code: KeyCode) -> Option<TuiMessage> {
    match code {
        KeyCode::Char('j') | KeyCode::Down => Some(TuiMessage::CursorDown),
        KeyCode::Char('k') | KeyCode::Up => Some(TuiMessage::CursorUp),
        KeyCode::Char('g') | KeyCode::Home => Some(TuiMessage::JumpTop),
        KeyCode::Char('G') | KeyCode::End => Some(TuiMessage::JumpBottom),
        KeyCode::Char(' ') => Some(TuiMessage::ToggleSelect),
        KeyCode::Char('m') => Some(TuiMessage::EnterMoveMode),
        KeyCode::Char('c') => Some(TuiMessage::EnterCopyMode),
        KeyCode::Enter => Some(TuiMessage::ExecuteTransfer),
        KeyCode::Esc => Some(TuiMessage::CancelTransfer),
        KeyCode::Tab => Some(TuiMessage::SwitchColumn),
        KeyCode::Char('u') => Some(TuiMessage::UseProfile),
        KeyCode::Char('a') => Some(TuiMessage::StartAddAlias),
        KeyCode::Char('n') => Some(TuiMessage::StartCreateProfile),
        KeyCode::Char('e') => Some(TuiMessage::EditItem),
        KeyCode::Char('x') => Some(TuiMessage::DeleteItem),
        KeyCode::Char('q') => Some(TuiMessage::Quit),
        KeyCode::Char(c) => if '1' <= c && c <= '9' {
            Some(TuiMessage::UseProfileWithPriority((c as u32 - '0' as u32) as usize))
        } else {
            None
        },
        _ => None,
    }
}

/// The message of a key in a text form.
pub open spec fn text_input_message(code: KeyCode) -> Option<TuiMessage> {
    match code {
        KeyCode::Enter => Some(TuiMessage::TextInputConfirm),
        KeyCode::Esc => Some(TuiMessage::TextInputCancel),
        KeyCode::Tab => Some(TuiMessage::TextInputSwitchField),
        KeyCode::Backspace => Some(TuiMessage::TextInputBackspace),
        KeyCode::Char(c) => Some(TuiMessage::TextInputChar(c)),
        _ => None,
    }
}

/// The message of a key in a confirmation.
pub open spec fn confirm_message(code: KeyCode) -> Option<TuiMessage> {
    match code {
        KeyCode::Char('y') | KeyCode::Char('Y') => Some(TuiMessage::ConfirmYes),
        KeyCode::Char('n') | KeyCode::Char('N') | KeyCode::Esc => Some(TuiMessage::ConfirmNo),
        _ => None,
    }
}

/// The message of a key: Control-C quits everywhere; else it depends on
/// the mode.
pub open spec fn key_message(key: KeyPress, mode: Mode) -> Option<TuiMessage> {
    if key.control && key.code == KeyCode::Char('c') {
        Some(TuiMessage::Quit)
    } else {
        match mode {
            Mode::Normal | Mode::Transfer(_) => normal_message(key.code),
            Mode::TextInput(_) => text_input_message(key.code),
            Mode::Confirm(_) => confirm_message(key.code),
        }
    }
}

/// The message of an event, if any.
pub open spec fn event_message(event: InputEvent, mode: Mode) -> Option<TuiMessage> {
    match event {
        InputEvent::Key(key) => key_message(key, mode),
        InputEvent::Resize(w, h) => Some(TuiMessage::Resize(w, h)),
        InputEvent::Other => None,
    }
}

fn map_normal_key(code: KeyCode) -> (r: Option<TuiMessage>)
    ensures
        r == normal_message(code),
{
    match code {
        KeyCode::Char('j') | KeyCode::Down => Some(TuiMessage::CursorDown),
        KeyCode::Char('k') | KeyCode::Up => Some(TuiMessage::CursorUp),
        KeyCode::Char('g') | KeyCode::Home => Some(TuiMessage::JumpTop),
        KeyCode::Char('G') | KeyCode::End => Some(TuiMessage::JumpBottom),
        KeyCode::Char(' ') => Some(TuiMessage::ToggleSelect),
        KeyCode::Char('m') => Some(TuiMessage::EnterMoveMode),
        KeyCode::Char('c') => Some(TuiMessage::EnterCopyMode),
        KeyCode::Enter => Some(TuiMessage::ExecuteTransfer),
        KeyCode::Esc => Some(TuiMessage::CancelTransfer),
        KeyCode::Tab => Some(TuiMessage::SwitchColumn),
        KeyCode::Char('u') => Some(TuiMessage::UseProfile),
        KeyCode::Char('a') => Some(TuiMessage::StartAddAlias),
        KeyCode::Char('n') => Some(TuiMessage::StartCreateProfile),
        KeyCode::Char('e') => Some(TuiMessage::EditItem),
        KeyCode::Char('x') => Some(TuiMessage::DeleteItem),
        KeyCode::Char('q') => Some(TuiMessage::Quit),
        KeyCode::Char(c) => {
            if '1' <= c && c <= '9' {
                Some(TuiMessage::UseProfileWithPriority((c as u32 - '0' as u32) as usize))
            } else {
                None
            }
        },
        _ => None,
    }
}

fn map_text_input_key(code: KeyCode) -> (r: Option<TuiMessage>)
    ensures
        r == text_input_message(code),
{
    match code {
        KeyCode::Enter => Some(TuiMessage::TextInputConfirm),
        KeyCode::Esc => Some(TuiMessage::TextInputCancel),
        KeyCode::Tab => Some(TuiMessage::TextInputSwitchField),
        KeyCode::Backspace => Some(TuiMessage::TextInputBackspace),
        KeyCode::Char(c) => Some(TuiMessage::TextInputChar(c)),
        _ => None,
    }
}

fn map_confirm_key(code: KeyCode) -> (r: Option<TuiMessage>)
    ensures
        r == confirm_message(code),
{
    match code {
        KeyCode::Char('y') | KeyCode::Char('Y') => Some(TuiMessage::ConfirmYes),
        KeyCode::Char('n') | KeyCode::Char('N') | KeyCode::Esc => Some(TuiMessage::ConfirmNo),
        _ => None,
    }
}

/// The message of a terminal event in a mode.
pub fn map_event(event: &InputEvent, mode: &Mode) -> (r: Option<TuiMessage>)
    ensures
        r == event_message(*event, *mode),
{
    match event {
        InputEvent::Key(key) => {
            if key.control && key.code == KeyCode::Char('c') {
                Some(TuiMessage::Quit)
            } else {
                match mode {
                    Mode::Normal | Mode::Transfer(_) => map_normal_key(key.code),
                    Mode::TextInput(_) => map_text_input_key(key.code),
                    Mode::Confirm(_) => map_confirm_key(key.code),
                }
            }
        },
        InputEvent::Resize(w, h) => Some(TuiMessage::Resize(*w, *h)),
        InputEvent::Other => None,
    }
}

/// Resolves the `u` + digit sequence: a `u` is held until the next key or
/// until its deadline passes.
#[derive(Debug)]
pub struct InputResolver {
    pending: Option<(TuiMessage, u64)>,
}

/// What feeding a message gives: the messages resolved now and what stays
/// pending (a `u`, with the time it came).
pub open spec fn fed(pending: Option<(TuiMessage, u64)>, msg: TuiMessage, now: u64) -> (
    Seq<TuiMessage>,
    Option<(TuiMessage, u64)>,
) {
    match pending {
        Some((p, _)) => if p == TuiMessage::UseProfile && msg is UseProfileWithPriority {
            (seq![msg], None)
        } else if p == TuiMessage::UseProfile && msg == TuiMessage::UseProfile {
            (seq![p], Some((msg, now)))
        } else {
            (seq![p, msg], None)
        },
        None => if msg == TuiMessage::UseProfile {
            (Seq::empty(), Some((msg, now)))
        } else {
            (seq![msg], None)
        },
    }
}

impl Default for InputResolver {
    fn default() -> (r: Self)
        ensures
            r.pending() is None,
    {
        InputResolver { pending: None }
    }
}

impl InputResolver {
    /// The message held back, with the time it came.
    pub closed spec fn pending(&self) -> Option<(TuiMessage, u64)> {
        self.pending
    }

    /// How long to wait for the next event at time `now` (milliseconds):
    /// what is left of a pending sequence's deadline, else the idle wait.
    pub fn poll_timeout(&self, now: u64) -> (r: u64)
        ensures
            r == match self.pending() {
                Some((_, t)) => if now >= t && now - t <= SEQUENCE_DEADLINE_MS {
                    (SEQUENCE_DEADLINE_MS - (now - t)) as u64
                } else if now < t {
                    SEQUENCE_DEADLINE_MS
                } else {
                    0
                },
                None => IDLE_TIMEOUT_MS,
            },
    {
        match &self.pending {
            Some((_, t)) => {
                let elapsed = now.saturating_sub(*t);
                SEQUENCE_DEADLINE_MS.saturating_sub(elapsed)
            },
            None => IDLE_TIMEOUT_MS,
        }
    }

    /// Feeds a terminal event at time `now`; returns the messages it
    /// resolves (none to two).
    pub fn feed(&mut self, event: &InputEvent, mode: &Mode, now: u64) -> (r: Vec<TuiMessage>)
        ensures
            match event_message(*event, *mode) {
                None => r@ == Seq::<TuiMessage>::empty() && final(self).pending() == old(self).pending(),
                Some(msg) => (r@, final(self).pending()) == fed(old(self).pending(), msg, now),
            },
    {
        let msg = match map_event(event, mode) {
            None => {
                return Vec::new();
            },
            Some(m) => m,
        };
        match self.pending.take() {
            Some((pending, t)) => {
                if pending == TuiMessage::UseProfile && match msg {
                    TuiMessage::UseProfileWithPriority(_) => true,
                    _ => false,
                } {
                    let r = vec![msg];
                    assert(r@ =~= seq![msg]);
                    r
                } else if pending == TuiMessage::UseProfile && msg == TuiMessage::UseProfile {
                    self.pending = Some((msg, now));
                    let r = vec![pending];
                    assert(r@ =~= seq![pending]);
                    r
                } else {
                    let r = vec![pending, msg];
                    assert(r@ =~= seq![pending, msg]);
                    r
                }
            },
            None => {
                if msg == TuiMessage::UseProfile {
                    self.pending = Some((msg, now));
                    Vec::new()
                } else {
                    let r = vec![msg];
                    assert(r@ =~= seq![msg]);
                    r
                }
            },
        }
    }

    /// Flushes a pending message (when the wait for input timed out).
    pub fn flush(&mut self) -> (r: Vec<TuiMessage>)
        ensures
            final(self).pending() is None,
            r@ == match old(self).pending() {
                Some((m, _)) => seq![m],
                None => Seq::<TuiMessage>::empty(),
            },
    {
        match self.pending.take() {
            Some((msg, _)) => {
                let r = vec![msg];
                assert(r@ =~= seq![msg]);
                r
            },
            None => Vec::new(),
        }
    }
}

/// What flushing a pending message gives.
pub open spec fn flushed(pending: Option<(TuiMessage, u64)>) -> Seq<TuiMessage> {
    match pending {
        Some((m, _)) => seq![m],
        None => Seq::empty(),
    }
}

/// Only a `u` is ever held back, stamped with the time it came; and a
/// message fed and then flushed comes out exactly once, in order after
/// what was pending, except that a `u` followed by a digit turns into the
/// priority activation alone.
pub proof fn law_feed_then_flush(pending: Option<(TuiMessage, u64)>, msg: TuiMessage, now: u64)
    requires
        pending matches Some((p, _)) ==> p == TuiMessage::UseProfile,
    ensures
        fed(pending, msg, now).1 matches Some((p, t)) ==> p == TuiMessage::UseProfile && t == now,
        fed(pending, msg, now).0 + flushed(fed(pending, msg, now).1) == match pending {
            None => seq![msg],
            Some((p, _)) => if msg is UseProfileWithPriority {
                seq![msg]
            } else {
                seq![p, msg]
            },
        },
{
    let r = fed(pending, msg, now);
    match pending {
        None => {
            if msg == TuiMessage::UseProfile {
                assert(r.0 + flushed(r.1) =~= seq![msg]);
            } else {
                assert(r.0 + flushed(r.1) =~= seq![msg]);
            }
        },
        Some((p, _)) => {
            if msg is UseProfileWithPriority {
                assert(r.0 + flushed(r.1) =~= seq![msg]);
            } else if msg == TuiMessage::UseProfile {
                assert(r.0 + flushed(r.1) =~= seq![p, msg]);
            } else {
                assert(r.0 + flushed(r.1) =~= seq![p, msg]);
            }
        },
    }
}

} // verus!

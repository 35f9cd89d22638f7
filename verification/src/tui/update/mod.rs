//! How the interface reacts to a message: each kind of message goes to
//! its handler; edits to the stores come back as a request to save them.
use vstd::prelude::*;

use crate::tui::model::{TuiMessage, TuiModel};

pub mod confirm;
pub mod edits;
pub mod navigation;
pub mod profile_actions;
pub mod rows;
pub mod selection;
pub mod text_input;
pub mod transfer;
pub mod trust;

verus! {

/// What the caller has to do after a message: nothing, write the stores
/// and the active profiles back, or flip the project's trust.
#[derive(Debug, Clone, Copy, PartialEq, Eq, Structural)]
pub enum TuiRequest {
    Nothing,
    Save,
    ToggleTrust,
}

/// The state the interface keeps between messages: the selection in
/// reference order, and any form's cursor on a character boundary.
pub open spec fn model_ok(m: TuiModel) -> bool {
    selection::selection_ok(m) && text_input::mode_ok(m.mode@)
}

/// The outcome of a message on `m`: the status line is cleared, then the
/// message's handler runs.
pub open spec fn updated(m: TuiModel, b: TuiModel, msg: TuiMessage, r: TuiRequest) -> bool {
    let m0 = TuiModel { status_line: None, ..m };
    match msg {
        TuiMessage::CursorUp | TuiMessage::CursorDown | TuiMessage::JumpTop | TuiMessage::JumpBottom
        | TuiMessage::SwitchColumn => b == navigation::navigated(m0, msg) && r == TuiRequest::Nothing,
        TuiMessage::ToggleSelect => {
            &&& selection::selection_set(b) == selection::toggled_set(m0)
            &&& b == (TuiModel { selected: b.selected, ..m0 })
            &&& r == TuiRequest::Nothing
        },
        TuiMessage::StartCreateProfile | TuiMessage::StartAddAlias | TuiMessage::EditItem
        | TuiMessage::TextInputChar(_) | TuiMessage::TextInputBackspace | TuiMessage::TextInputConfirm
        | TuiMessage::TextInputCancel | TuiMessage::TextInputSwitchField | TuiMessage::TextInputSwitchFieldBack
        | TuiMessage::TextInputCursorLeft | TuiMessage::TextInputCursorRight => text_input::text_handled(
            m0,
            b,
            msg,
            r,
        ),
        TuiMessage::EnterMoveMode | TuiMessage::EnterCopyMode | TuiMessage::ExecuteTransfer
        | TuiMessage::CancelTransfer => transfer::transfer_handled(m0, b, msg, r),
        TuiMessage::DeleteItem | TuiMessage::ConfirmYes | TuiMessage::ConfirmNo | TuiMessage::UseProfile
        | TuiMessage::UseProfileWithPriority(_) => profile_actions::profile_handled(m0, b, msg, r),
        TuiMessage::ToggleTrust => b == m0 && r == (if trust::on_project_header(m0) {
            TuiRequest::ToggleTrust
        } else {
            TuiRequest::Nothing
        }),
        TuiMessage::Quit | TuiMessage::Resize(_, _) => b == m0 && r == TuiRequest::Nothing,
    }
}

/// Applies a message to the interface: clears the status line and hands
/// the message to its handler. Quitting and resizing are the caller's.
pub fn update(model: &mut TuiModel, msg: TuiMessage) -> (r: TuiRequest)
    requires
        model_ok(*old(model)),
        msg is CursorUp ==> navigation::active_pos(*old(model)) <= navigation::active_rows(*old(model)).len(),
    ensures
        model_ok(*final(model)),
        updated(*old(model), *final(model), msg, r),
{
    model.status_line = None;
    match msg {
        TuiMessage::CursorUp | TuiMessage::CursorDown | TuiMessage::JumpTop | TuiMessage::JumpBottom
        | TuiMessage::SwitchColumn => {
            navigation::handle(model, msg);
            TuiRequest::Nothing
        },
        TuiMessage::ToggleSelect => {
            selection::handle_toggle(model);
            TuiRequest::Nothing
        },
        TuiMessage::StartCreateProfile | TuiMessage::StartAddAlias | TuiMessage::EditItem
        | TuiMessage::TextInputChar(_) | TuiMessage::TextInputBackspace | TuiMessage::TextInputConfirm
        | TuiMessage::TextInputCancel | TuiMessage::TextInputSwitchField | TuiMessage::TextInputSwitchFieldBack
        | TuiMessage::TextInputCursorLeft | TuiMessage::TextInputCursorRight => text_input::handle(model, msg),
        TuiMessage::EnterMoveMode | TuiMessage::EnterCopyMode | TuiMessage::ExecuteTransfer
        | TuiMessage::CancelTransfer => transfer::handle(model, msg),
        TuiMessage::DeleteItem | TuiMessage::ConfirmYes | TuiMessage::ConfirmNo | TuiMessage::UseProfile
        | TuiMessage::UseProfileWithPriority(_) => profile_actions::handle(model, msg),
        TuiMessage::ToggleTrust => trust::handle(model),
        TuiMessage::Quit | TuiMessage::Resize(_, _) => TuiRequest::Nothing,
    }
}

} // verus!

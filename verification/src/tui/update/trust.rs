//! Trusting or untrusting the project file from its header row.
use vstd::prelude::*;

use crate::tui::model::{Mode, NodeKind, TuiModel};
use crate::tui::update::TuiRequest;

verus! {

/// Does the cursor sit on the project header in normal mode?
pub open spec fn on_project_header(m: TuiModel) -> bool {
    m.mode is Normal && m.cursor < m.tree@.len() && m.tree@[m.cursor as int].kind == NodeKind::ProjectHeader
}

/// On the project header in normal mode, asks the caller to flip the
/// project's trust; elsewhere nothing happens.
pub fn handle(model: &TuiModel) -> (r: TuiRequest)
    ensures
        r == if on_project_header(*model) {
            TuiRequest::ToggleTrust
        } else {
            TuiRequest::Nothing
        },
{
    if !matches!(model.mode, Mode::Normal) || model.cursor >= model.tree.len() {
        return TuiRequest::Nothing;
    }
    if model.tree[model.cursor].kind == NodeKind::ProjectHeader {
        TuiRequest::ToggleTrust
    } else {
        TuiRequest::Nothing
    }
}

} // verus!

//! Cursor movement and switching between the two columns.
use vstd::prelude::*;

use crate::tui::model::{Column, Mode, TreeNode, TuiMessage, TuiModel};

verus! {

/// The rows of the column that has the cursor.
pub open spec fn active_rows(m: TuiModel) -> Seq<TreeNode> {
    match m.active_column {
        Column::Left => m.tree@,
        Column::Right => m.dest_tree@,
    }
}

/// The cursor of the column that has it.
pub open spec fn active_pos(m: TuiModel) -> int {
    match m.active_column {
        Column::Left => m.cursor as int,
        Column::Right => m.dest_cursor as int,
    }
}

/// `m` with the cursor of the active column at `c`.
pub open spec fn with_active_pos(m: TuiModel, c: usize) -> TuiModel {
    match m.active_column {
        Column::Left => TuiModel { cursor: c, ..m },
        Column::Right => TuiModel { dest_cursor: c, ..m },
    }
}

/// Where a movement message puts the cursor `c` in `len` rows: one row
/// down or up when there is one, the first or the last row.
pub open spec fn moved(msg: TuiMessage, c: int, len: int) -> int {
    match msg {
        TuiMessage::CursorDown => if c + 1 < len {
            c + 1
        } else {
            c
        },
        TuiMessage::CursorUp => if c > 0 {
            c - 1
        } else {
            c
        },
        TuiMessage::JumpTop => if len > 0 {
            0
        } else {
            c
        },
        TuiMessage::JumpBottom => if len > 0 {
            len - 1
        } else {
            c
        },
        _ => c,
    }
}

/// The model after a navigation message: the cursor moved in the active
/// column, or the columns switched in transfer mode.
pub open spec fn navigated(m: TuiModel, msg: TuiMessage) -> TuiModel {
    match msg {
        TuiMessage::SwitchColumn => if m.mode is Transfer {
            TuiModel {
                active_column: match m.active_column {
                    Column::Left => Column::Right,
                    Column::Right => Column::Left,
                },
                ..m
            }
        } else {
            m
        },
        _ => with_active_pos(m, moved(msg, active_pos(m), active_rows(m).len() as int) as usize),
    }
}

/// The rows of the column that has the cursor.
pub fn active_tree(model: &TuiModel) -> (r: &[TreeNode])
    ensures
        r@ == active_rows(*model),
{
    match model.active_column {
        Column::Left => model.tree.as_slice(),
        Column::Right => model.dest_tree.as_slice(),
    }
}

/// The cursor of the column that has it.
pub fn active_cursor(model: &TuiModel) -> (r: &usize)
    ensures
        *r == active_pos(*model),
{
    match model.active_column {
        Column::Left => &model.cursor,
        Column::Right => &model.dest_cursor,
    }
}

/// Sets the cursor of the column that has it.
pub fn set_active_cursor(model: &mut TuiModel, c: usize)
    ensures
        *final(model) == with_active_pos(*old(model), c),
{
    match model.active_column {
        Column::Left => model.cursor = c,
        Column::Right => model.dest_cursor = c,
    }
}

/// Moves the cursor (down, up, top, bottom) in the active column, or
/// switches columns in transfer mode.
pub fn handle(model: &mut TuiModel, msg: TuiMessage)
    requires
        msg is CursorUp ==> active_pos(*old(model)) <= active_rows(*old(model)).len(),
    ensures
        *final(model) == navigated(*old(model), msg),
{
    match msg {
        TuiMessage::CursorDown => {
            let len = active_tree(model).len();
            let c = *active_cursor(model);
            if c < len && c + 1 < len && active_tree(model)[c + 1].kind.is_navigable() {
                set_active_cursor(model, c + 1);
            }
        },
        TuiMessage::CursorUp => {
            let c = *active_cursor(model);
            if c > 0 && active_tree(model)[c - 1].kind.is_navigable() {
                set_active_cursor(model, c - 1);
            }
        },
        TuiMessage::JumpTop => {
            let len = active_tree(model).len();
            if len > 0 && active_tree(model)[0].kind.is_navigable() {
                set_active_cursor(model, 0);
            }
        },
        TuiMessage::JumpBottom => {
            let len = active_tree(model).len();
            if len > 0 && active_tree(model)[len - 1].kind.is_navigable() {
                set_active_cursor(model, len - 1);
            }
        },
        TuiMessage::SwitchColumn => {
            if let Mode::Transfer(_) = model.mode {
                model.active_column = match model.active_column {
                    Column::Left => Column::Right,
                    Column::Right => Column::Left,
                };
            }
        },
        _ => {
            proof {
                assert(with_active_pos(*model, active_pos(*model) as usize) == *model);
            }
        },
    }
}

} // verus!

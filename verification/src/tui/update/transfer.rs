//! Moving and copying the selected aliases to another scope.
use vstd::prelude::*;

use crate::alias_id::{AliasId, IdSpec};
use crate::tui::model::{ids_view, Column, ConfirmAction, Mode, MoveDestination, NodeKind, NodeSpec, TransferMode, TuiMessage, TuiModel, clamped_cursor};
use crate::tui::transfer::{
    alias_at, alias_exists_at_dest, id_name, is_same_source, rest_kept, same_source, transfer_single_alias, transferred,
    AliasStores, DestSpec, StoresView,
};
use crate::tui::update::selection::{ids_sorted, selection_ok};
use crate::tui::update::TuiRequest;

verus! {

/// The destination a row of the destination tree stands for.
pub open spec fn dest_of(n: NodeSpec) -> Option<DestSpec> {
    match n.kind {
        NodeKind::GlobalHeader => Some(DestSpec::Global),
        NodeKind::ProjectHeader => Some(DestSpec::Project),
        NodeKind::ProfileHeader => Some(DestSpec::Profile(n.label)),
        _ => None,
    }
}

/// The selected references not already at the destination, in order.
pub open spec fn movable(sel: Seq<IdSpec>, dest: DestSpec) -> Seq<IdSpec>
    decreases sel.len(),
{
    if sel.len() == 0 {
        Seq::empty()
    } else {
        movable(sel.drop_last(), dest) + if same_source(sel.last(), dest) {
            Seq::empty()
        } else {
            seq![sel.last()]
        }
    }
}

/// Does an alias of some reference's name already exist at the
/// destination?
pub open spec fn collides(v: StoresView, ids: Seq<IdSpec>, dest: DestSpec) -> bool {
    exists|i: int| 0 <= i < ids.len() && alias_at(v, id_name(#[trigger] ids[i]), dest) is Some
}

/// The references transferred one after the other.
pub open spec fn transferred_all(v: StoresView, ids: Seq<IdSpec>, dest: DestSpec, delete_source: bool) -> StoresView
    decreases ids.len(),
{
    if ids.len() == 0 {
        v
    } else {
        transferred(transferred_all(v, ids.drop_last(), dest, delete_source), ids.last(), dest, delete_source)
    }
}

/// Back to normal mode after a transfer: nothing selected, the cursor in
/// the alias tree.
pub open spec fn transfer_reset(a: TuiModel, b: TuiModel) -> bool {
    &&& b.selected@.len() == 0
    &&& b.mode is Normal
    &&& b.active_column == Column::Left
}

/// Everything but the stores and the trees as they were.
pub open spec fn view_kept(a: TuiModel, b: TuiModel) -> bool {
    &&& b.active_profiles == a.active_profiles
    &&& b.project_trust == a.project_trust
    &&& b.dest_cursor == a.dest_cursor
    &&& b.scroll_offset == a.scroll_offset
    &&& b.status_line == a.status_line
}

/// The trees were rebuilt over the new stores.
pub open spec fn refreshed(a: TuiModel, b: TuiModel) -> bool {
    &&& b.trees_current()
    &&& b.cursor == clamped_cursor(a.cursor as int, b.tree@.len() as int)
}

/// Transfers the references to the destination, moving when
/// `transfer_mode` is `Move`, and rebuilds the trees.
pub fn dispatch_transfer(model: &mut TuiModel, aliases: &[AliasId], transfer_mode: TransferMode, dest: &MoveDestination)
    ensures
        final(model).stores@ == transferred_all(old(model).stores@, ids_view(aliases@), dest@, transfer_mode is Move),
        rest_kept(&old(model).stores, &final(model).stores),
        refreshed(*old(model), *final(model)),
        view_kept(*old(model), *final(model)),
        final(model).selected == old(model).selected,
        final(model).mode == old(model).mode,
        final(model).active_column == old(model).active_column,
{
    let delete_source = match transfer_mode {
        TransferMode::Move => true,
        TransferMode::Copy => false,
    };
    let ghost start = model.stores;
    let ghost ids = ids_view(aliases@);
    let mut i: usize = 0;
    while i < aliases.len()
        invariant
            i <= aliases@.len(),
            ids == ids_view(aliases@),
            model.stores@ == transferred_all(start@, ids.take(i as int), dest@, delete_source),
            rest_kept(&start, &model.stores),
            start == old(model).stores,
            *model == (TuiModel { stores: model.stores, ..*old(model) }),
        decreases aliases@.len() - i,
    {
        let ghost before = model.stores;
        transfer_single_alias(&mut model.stores, &aliases[i], dest, delete_source);
        proof {
            assert(ids.take(i + 1).drop_last() =~= ids.take(i as int));
            assert(ids.take(i + 1).last() == aliases@[i as int]@);
        }
        i = i + 1;
    }
    proof {
        assert(ids.take(aliases@.len() as int) =~= ids);
    }
    model.rebuild_tree();
}

/// The transfer waiting for a yes or no when some name already exists at
/// the destination.
pub open spec fn overwrite_prompt(ids: Seq<IdSpec>, dest: DestSpec, tm: TransferMode) -> crate::tui::model::ModeSpec {
    crate::tui::model::ModeSpec::Confirm(
        crate::tui::model::ConfirmSpec::OverwriteAliases { aliases: ids, destination: dest, transfer_mode: tm },
    )
}

/// The outcome of running a transfer from the model `m` (in transfer
/// mode): `b` and the request `r`.
pub open spec fn transfer_executed(m: TuiModel, b: TuiModel, r: TuiRequest) -> bool {
    let tm = m.mode->Transfer_0;
    if m.dest_cursor >= m.dest_tree@.len() || dest_of(m.dest_tree@[m.dest_cursor as int]@) is None {
        b == m && r == TuiRequest::Nothing
    } else {
        let d = dest_of(m.dest_tree@[m.dest_cursor as int]@)->Some_0;
        let ids = movable(ids_view(m.selected@), d);
        if ids.len() == 0 {
            &&& r == TuiRequest::Nothing
            &&& transfer_reset(m, b)
            &&& b == (TuiModel {
                selected: b.selected,
                mode: b.mode,
                active_column: b.active_column,
                ..m
            })
        } else if collides(m.stores@, ids, d) {
            &&& r == TuiRequest::Nothing
            &&& b.mode@ == overwrite_prompt(ids, d, tm)
            &&& b == (TuiModel { mode: b.mode, ..m })
        } else {
            &&& r == TuiRequest::Save
            &&& b.stores@ == transferred_all(m.stores@, ids, d, tm is Move)
            &&& rest_kept(&m.stores, &b.stores)
            &&& refreshed(m, b)
            &&& view_kept(m, b)
            &&& transfer_reset(m, b)
        }
    }
}

/// Runs the transfer of the selection to the destination under the
/// cursor of the destination tree: references already there are left
/// out; when none is left, the transfer ends; when a name already exists
/// at the destination, it asks first; else it transfers, ends and asks
/// for a save.
pub fn execute_transfer(model: &mut TuiModel) -> (r: TuiRequest)
    requires
        old(model).mode is Transfer,
    ensures
        transfer_executed(*old(model), *final(model), r),
{
    let tm = match model.mode {
        Mode::Transfer(t) => t,
        _ => {
            return TuiRequest::Nothing;
        },
    };
    if model.dest_cursor >= model.dest_tree.len() {
        return TuiRequest::Nothing;
    }
    let node = &model.dest_tree[model.dest_cursor];
    let destination = match node.kind {
        NodeKind::GlobalHeader => MoveDestination::Global,
        NodeKind::ProjectHeader => MoveDestination::Project,
        NodeKind::ProfileHeader => MoveDestination::Profile(node.label.clone()),
        _ => {
            return TuiRequest::Nothing;
        },
    };
    let ghost d = destination@;
    let ghost sel = ids_view(model.selected@);
    let mut ids: Vec<AliasId> = Vec::new();
    let mut i: usize = 0;
    while i < model.selected.len()
        invariant
            i <= model.selected@.len(),
            sel == ids_view(model.selected@),
            d == destination@,
            ids_view(ids@) == movable(sel.take(i as int), d),
        decreases model.selected@.len() - i,
    {
        proof {
            assert(sel.take(i + 1).drop_last() =~= sel.take(i as int));
            assert(sel.take(i + 1).last() == sel[i as int]);
        }
        if !is_same_source(&model.selected[i], &destination) {
            let ghost before = ids_view(ids@);
            ids.push(model.selected[i].dup());
            assert(ids_view(ids@) =~= before.push(sel[i as int]));
        } else {
            assert(ids_view(ids@) =~= ids_view(ids@) + Seq::<IdSpec>::empty());
        }
        i = i + 1;
    }
    proof {
        assert(sel.take(model.selected@.len() as int) =~= sel);
    }
    if ids.len() == 0 {
        model.selected = Vec::new();
        model.mode = Mode::Normal;
        model.active_column = Column::Left;
        return TuiRequest::Nothing;
    }
    let ghost iv = ids_view(ids@);
    let mut collision = false;
    let mut k: usize = 0;
    while k < ids.len()
        invariant
            k <= ids@.len(),
            iv == ids_view(ids@),
            d == destination@,
            collision == exists|j: int| 0 <= j < k && alias_at(model.stores@, id_name(#[trigger] iv[j]), d) is Some,
        decreases ids@.len() - k,
    {
        if alias_exists_at_dest(&model.stores, &ids[k], &destination) {
            collision = true;
        }
        proof {
            assert(iv[k as int] == ids@[k as int]@);
            if collision {
                if alias_at(model.stores@, id_name(iv[k as int]), d) is Some {
                    assert(0 <= k < k + 1);
                } else {
                    let j = choose|j: int| 0 <= j < k && alias_at(model.stores@, id_name(#[trigger] iv[j]), d) is Some;
                    assert(0 <= j < k + 1);
                }
            } else {
                assert forall|j: int| 0 <= j < k + 1 implies !(alias_at(model.stores@, id_name(#[trigger] iv[j]), d) is Some) by {}
            }
        }
        k = k + 1;
    }
    if collision {
        model.mode = Mode::Confirm(ConfirmAction::OverwriteAliases { aliases: ids, destination, transfer_mode: tm });
        return TuiRequest::Nothing;
    }
    dispatch_transfer(model, ids.as_slice(), tm, &destination);
    model.selected = Vec::new();
    model.mode = Mode::Normal;
    model.active_column = Column::Left;
    TuiRequest::Save
}

/// The selection transfer mode starts with: the selection, or when it is
/// empty, the alias row under the cursor.
pub open spec fn selection_for_transfer(m: TuiModel) -> Seq<IdSpec> {
    let sel = ids_view(m.selected@);
    if sel.len() == 0 && m.cursor < m.tree@.len() && crate::tui::model::selectable(m.tree@[m.cursor as int].kind)
        && m.tree@[m.cursor as int]@.alias_id is Some {
        seq![m.tree@[m.cursor as int]@.alias_id->Some_0]
    } else {
        sel
    }
}

/// The model after entering transfer mode from normal mode: the
/// selection (or the row under the cursor) and, when there is something
/// to transfer, transfer mode with the cursor in the destination column.
pub open spec fn entered(m: TuiModel, b: TuiModel, tm: TransferMode) -> bool {
    if !(m.mode is Normal) {
        b == m
    } else {
        let sel = selection_for_transfer(m);
        &&& ids_view(b.selected@) == sel
        &&& if sel.len() > 0 {
            b.mode == Mode::Transfer(tm) && b.active_column == Column::Right
        } else {
            b.mode == m.mode && b.active_column == m.active_column
        }
        &&& b == (TuiModel { selected: b.selected, mode: b.mode, active_column: b.active_column, ..m })
    }
}

/// The outcome of a transfer message on `m`.
pub open spec fn transfer_handled(m: TuiModel, b: TuiModel, msg: TuiMessage, r: TuiRequest) -> bool {
    match msg {
        TuiMessage::EnterMoveMode => entered(m, b, TransferMode::Move) && r == TuiRequest::Nothing,
        TuiMessage::EnterCopyMode => entered(m, b, TransferMode::Copy) && r == TuiRequest::Nothing,
        TuiMessage::CancelTransfer => {
            &&& transfer_reset(m, b)
            &&& b == (TuiModel { selected: b.selected, mode: b.mode, active_column: b.active_column, ..m })
            &&& r == TuiRequest::Nothing
        },
        TuiMessage::ExecuteTransfer => if m.mode is Transfer && m.active_column == Column::Right {
            transfer_executed(m, b, r)
        } else {
            b == m && r == TuiRequest::Nothing
        },
        _ => b == m && r == TuiRequest::Nothing,
    }
}

/// Starts moving or copying, cancels, or runs the transfer.
pub fn handle(model: &mut TuiModel, msg: TuiMessage) -> (r: TuiRequest)
    ensures
        transfer_handled(*old(model), *final(model), msg, r),
{
    match msg {
        TuiMessage::EnterMoveMode | TuiMessage::EnterCopyMode => {
            if !matches!(model.mode, Mode::Normal) {
                return TuiRequest::Nothing;
            }
            if model.selected.len() == 0 && model.cursor < model.tree.len() {
                let c = model.cursor;
                if model.tree[c].kind.is_selectable() {
                    if let Some(id) = &model.tree[c].alias_id {
                        let id = id.dup();
                        model.selected.push(id);
                        assert(ids_view(model.selected@) =~= seq![id@]);
                    }
                }
            }
            if model.selected.len() > 0 {
                let tm = match msg {
                    TuiMessage::EnterMoveMode => TransferMode::Move,
                    _ => TransferMode::Copy,
                };
                model.mode = Mode::Transfer(tm);
                model.active_column = Column::Right;
            }
            TuiRequest::Nothing
        },
        TuiMessage::CancelTransfer => {
            model.selected = Vec::new();
            model.mode = Mode::Normal;
            model.active_column = Column::Left;
            TuiRequest::Nothing
        },
        TuiMessage::ExecuteTransfer => {
            let ready = match model.mode {
                Mode::Transfer(_) => match model.active_column {
                    Column::Right => true,
                    Column::Left => false,
                },
                _ => false,
            };
            if ready {
                execute_transfer(model)
            } else {
                TuiRequest::Nothing
            }
        },
        _ => TuiRequest::Nothing,
    }
}

} // verus!

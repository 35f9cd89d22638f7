//! Deleting rows, answering a confirmation, and switching profiles.
use vstd::prelude::*;

use crate::alias_id::{AliasId, IdSpec, SubcommandScope, TargetSpec};
use crate::session::{use_all, UseMode};
use crate::text::views;
use crate::tui::model::{
    ConfirmAction, ConfirmSpec, Column, Mode, ModeSpec, MoveDestination, NodeKind, TuiMessage, TuiModel,
    ids_view,
};
use crate::tui::transfer::{remove_source, removed_from, rest_kept, DestSpec};
use crate::subcommand::{has_prefixed, strip_prefixed};
use crate::tui::tree::nodes_view;
use crate::tui::update::confirm::{target_dest, target_destination};
use crate::tui::update::edits::{
    delete_profile, edit_subcommand_at, remove_prefixed_at, subs_at, subs_replaced, without_profile,
};
use crate::tui::update::rows::{
    derive_key_prefix_from_cursor, first_word, first_word_of, key_prefix_at, resolve_scope_from_ancestors,
    scope_above,
};
use crate::tui::update::transfer::{dispatch_transfer, refreshed, transferred_all, view_kept};
use crate::tui::update::TuiRequest;

verus! {

/// The destination scope of a subcommand alias's scope.
pub open spec fn scope_dest(t: TargetSpec) -> DestSpec {
    match t {
        TargetSpec::Global => DestSpec::Global,
        TargetSpec::Profile(n) => DestSpec::Profile(n),
        TargetSpec::Local => DestSpec::Project,
    }
}

fn scope_destination(s: &SubcommandScope) -> (r: MoveDestination)
    ensures
        r@ == scope_dest(match s {
            SubcommandScope::Global => TargetSpec::Global,
            SubcommandScope::Profile(n) => TargetSpec::Profile(n@),
            SubcommandScope::Project => TargetSpec::Local,
        }),
{
    match s {
        SubcommandScope::Global => MoveDestination::Global,
        SubcommandScope::Profile(n) => MoveDestination::Profile(n.clone()),
        SubcommandScope::Project => MoveDestination::Project,
    }
}

/// After an edit of the stores: trees rebuilt, the rest of the interface
/// as it was.
pub open spec fn edited(m: TuiModel, b: TuiModel) -> bool {
    &&& refreshed(m, b)
    &&& b.project_trust == m.project_trust
    &&& b.selected == m.selected
    &&& b.dest_cursor == m.dest_cursor
    &&& b.active_column == m.active_column
    &&& b.scroll_offset == m.scroll_offset
    &&& b.status_line == m.status_line
}

/// The outcome of removing the subcommand aliases whose keys start with
/// `p` from the scope `d`: nothing when there are none.
pub open spec fn prefix_removed(m: TuiModel, b: TuiModel, r: TuiRequest, d: DestSpec, p: Seq<char>) -> bool {
    match subs_at(m.stores, d) {
        Some(s) => if has_prefixed(s, p) {
            &&& subs_replaced(m.stores, b.stores, d, strip_prefixed(s, p))
            &&& edited(m, b)
            &&& b.active_profiles == m.active_profiles
            &&& b.mode == m.mode
            &&& r == TuiRequest::Save
        } else {
            b == m && r == TuiRequest::Nothing
        },
        None => b == m && r == TuiRequest::Nothing,
    }
}

/// The outcome of a delete at the cursor in normal mode: an alias is
/// removed from its scope, a subcommand alias from its scope, a subcommand
/// group or program with all the keys under it, and a profile asks for a
/// confirmation first.
pub open spec fn deleted(m: TuiModel, b: TuiModel, r: TuiRequest) -> bool {
    if !(m.mode is Normal) || m.cursor >= m.tree@.len() {
        b == m && r == TuiRequest::Nothing
    } else {
        let node = m.tree@[m.cursor as int]@;
        match node.kind {
            NodeKind::AliasItem => match node.alias_id {
                Some(IdSpec::Subcommand(_, _)) | None => b == m && r == TuiRequest::Nothing,
                Some(id) => {
                    &&& b.stores@ == removed_from(m.stores@, id)
                    &&& rest_kept(&m.stores, &b.stores)
                    &&& edited(m, b)
                    &&& b.active_profiles == m.active_profiles
                    &&& b.mode == m.mode
                    &&& r == TuiRequest::Save
                },
            },
            NodeKind::SubcommandItem => match node.alias_id {
                Some(IdSpec::Subcommand(scope, key)) => {
                    &&& (subs_at(m.stores, scope_dest(scope)) matches Some(s) ==> subs_replaced(
                        m.stores,
                        b.stores,
                        scope_dest(scope),
                        s.remove(key),
                    ))
                    &&& (subs_at(m.stores, scope_dest(scope)) is None ==> b.stores == m.stores)
                    &&& edited(m, b)
                    &&& b.active_profiles == m.active_profiles
                    &&& b.mode == m.mode
                    &&& r == TuiRequest::Save
                },
                _ => b == m && r == TuiRequest::Nothing,
            },
            NodeKind::SubcommandGroupNode => prefix_removed(
                m,
                b,
                r,
                target_dest(scope_above(nodes_view(m.tree@), m.cursor as int)),
                key_prefix_at(nodes_view(m.tree@), m.cursor as int),
            ),
            NodeKind::SubcommandProgramHeader => prefix_removed(
                m,
                b,
                r,
                target_dest(scope_above(nodes_view(m.tree@), m.cursor as int)),
                first_word(node.label) + ":"@,
            ),
            NodeKind::ProfileHeader => {
                &&& b.mode@ == ModeSpec::Confirm(ConfirmSpec::DeleteProfile(node.label))
                &&& b == (TuiModel { mode: b.mode, ..m })
                &&& r == TuiRequest::Nothing
            },
            _ => b == m && r == TuiRequest::Nothing,
        }
    }
}

/// The outcome of a yes: a profile deleted and deactivated, or the
/// pending transfer run; back to normal mode either way.
pub open spec fn confirmed(m: TuiModel, b: TuiModel, r: TuiRequest) -> bool {
    match m.mode@ {
        ModeSpec::Confirm(ConfirmSpec::DeleteProfile(name)) => {
            &&& b.stores.config == m.stores.config
            &&& b.stores.project == m.stores.project
            &&& b.stores.profiles.profiles@ == without_profile(m.stores.profiles.profiles@, name)
            &&& b.active_view() == crate::session::without(m.active_view(), name)
            &&& edited(m, b)
            &&& b.mode is Normal
            &&& r == TuiRequest::Save
        },
        ModeSpec::Confirm(ConfirmSpec::OverwriteAliases { aliases, destination, transfer_mode }) => {
            &&& b.stores@ == transferred_all(m.stores@, aliases, destination, transfer_mode is Move)
            &&& rest_kept(&m.stores, &b.stores)
            &&& refreshed(m, b)
            &&& view_kept(m, b)
            &&& b.selected@.len() == 0
            &&& b.active_column == Column::Left
            &&& b.mode is Normal
            &&& r == TuiRequest::Save
        },
        _ => b == m && r == TuiRequest::Nothing,
    }
}

/// The outcome of switching the profile under the cursor: toggled, or
/// activated at a position.
pub open spec fn switched(m: TuiModel, b: TuiModel, r: TuiRequest, priority: Option<usize>) -> bool {
    if !(m.mode is Normal) || m.cursor >= m.tree@.len() || m.tree@[m.cursor as int].kind != NodeKind::ProfileHeader {
        b == m && r == TuiRequest::Nothing
    } else {
        let name = m.tree@[m.cursor as int]@.label;
        &&& b.active_view() == use_all(
            m.active_view(),
            seq![name],
            if priority is Some {
                UseMode::Enable
            } else {
                UseMode::Toggle
            },
            priority,
        )
        &&& b.stores == m.stores
        &&& edited(m, b)
        &&& b.mode == m.mode
        &&& r == TuiRequest::Save
    }
}

/// The outcome of a delete, confirmation or profile message on `m`.
pub open spec fn profile_handled(m: TuiModel, b: TuiModel, msg: TuiMessage, r: TuiRequest) -> bool {
    match msg {
        TuiMessage::DeleteItem => deleted(m, b, r),
        TuiMessage::ConfirmYes => confirmed(m, b, r),
        TuiMessage::ConfirmNo => b == (TuiModel { mode: Mode::Normal, ..m }) && r == TuiRequest::Nothing,
        TuiMessage::UseProfile => switched(m, b, r, None),
        TuiMessage::UseProfileWithPriority(n) => switched(m, b, r, Some(n)),
        _ => b == m && r == TuiRequest::Nothing,
    }
}

/// Deletes the row under the cursor, answers a confirmation, or switches
/// the profile under the cursor.
pub fn handle(model: &mut TuiModel, msg: TuiMessage) -> (r: TuiRequest)
    ensures
        profile_handled(*old(model), *final(model), msg, r),
{
    match msg {
        TuiMessage::DeleteItem => {
            if !matches!(model.mode, Mode::Normal) || model.cursor >= model.tree.len() {
                return TuiRequest::Nothing;
            }
            let c = model.cursor;
            match model.tree[c].kind {
                NodeKind::AliasItem => {
                    let id = match &model.tree[c].alias_id {
                        Some(AliasId::Subcommand { .. }) | None => {
                            return TuiRequest::Nothing;
                        },
                        Some(id) => id.dup(),
                    };
                    remove_source(&mut model.stores, &id);
                    model.rebuild_tree();
                    TuiRequest::Save
                },
                NodeKind::SubcommandItem => {
                    let (dest, key) = match &model.tree[c].alias_id {
                        Some(AliasId::Subcommand { scope, key }) => (scope_destination(scope), key.clone()),
                        _ => {
                            return TuiRequest::Nothing;
                        },
                    };
                    edit_subcommand_at(&mut model.stores, &dest, key.as_str(), None);
                    model.rebuild_tree();
                    TuiRequest::Save
                },
                NodeKind::SubcommandGroupNode | NodeKind::SubcommandProgramHeader => {
                    let prefix = if model.tree[c].kind == NodeKind::SubcommandGroupNode {
                        derive_key_prefix_from_cursor(model)
                    } else {
                        let mut p = first_word_of(model.tree[c].label.as_str());
                        crate::text::push_str(&mut p, ":");
                        p
                    };
                    let target = match resolve_scope_from_ancestors(model) {
                        Some(t) => t,
                        None => crate::tui::model::AliasTarget::Global,
                    };
                    let dest = target_destination(&target);
                    if remove_prefixed_at(&mut model.stores, &dest, prefix.as_str()) {
                        model.rebuild_tree();
                        TuiRequest::Save
                    } else {
                        TuiRequest::Nothing
                    }
                },
                NodeKind::ProfileHeader => {
                    let label = model.tree[c].label.clone();
                    model.mode = Mode::Confirm(ConfirmAction::DeleteProfile(label));
                    TuiRequest::Nothing
                },
                _ => TuiRequest::Nothing,
            }
        },
        TuiMessage::ConfirmYes => {
            let action = match &model.mode {
                Mode::Confirm(a) => match a {
                    ConfirmAction::DeleteProfile(n) => ConfirmAction::DeleteProfile(n.clone()),
                    ConfirmAction::OverwriteAliases { aliases, destination, transfer_mode } => {
                        let mut ids: Vec<AliasId> = Vec::new();
                        let mut i: usize = 0;
                        while i < aliases.len()
                            invariant
                                i <= aliases@.len(),
                                ids_view(ids@) == ids_view(aliases@).take(i as int),
                            decreases aliases@.len() - i,
                        {
                            let ghost before = ids_view(ids@);
                            ids.push(aliases[i].dup());
                            proof {
                                assert(ids_view(ids@) =~= before.push(aliases@[i as int]@));
                                assert(ids_view(aliases@).take(i + 1) =~= ids_view(aliases@).take(i as int).push(
                                    aliases@[i as int]@,
                                ));
                            }
                            i = i + 1;
                        }
                        proof {
                            assert(ids_view(aliases@).take(aliases@.len() as int) =~= ids_view(aliases@));
                        }
                        let d = match destination {
                            MoveDestination::Global => MoveDestination::Global,
                            MoveDestination::Project => MoveDestination::Project,
                            MoveDestination::Profile(n) => MoveDestination::Profile(n.clone()),
                        };
                        ConfirmAction::OverwriteAliases { aliases: ids, destination: d, transfer_mode: *transfer_mode }
                    },
                },
                _ => {
                    return TuiRequest::Nothing;
                },
            };
            match action {
                ConfirmAction::DeleteProfile(name) => {
                    delete_profile(&mut model.stores, &mut model.active_profiles, name.as_str());
                    model.rebuild_tree();
                },
                ConfirmAction::OverwriteAliases { aliases, destination, transfer_mode } => {
                    dispatch_transfer(model, aliases.as_slice(), transfer_mode, &destination);
                    model.selected = Vec::new();
                    model.active_column = Column::Left;
                },
            }
            model.mode = Mode::Normal;
            TuiRequest::Save
        },
        TuiMessage::ConfirmNo => {
            model.mode = Mode::Normal;
            TuiRequest::Nothing
        },
        TuiMessage::UseProfile | TuiMessage::UseProfileWithPriority(_) => {
            if !matches!(model.mode, Mode::Normal) || model.cursor >= model.tree.len() {
                return TuiRequest::Nothing;
            }
            let c = model.cursor;
            if model.tree[c].kind != NodeKind::ProfileHeader {
                return TuiRequest::Nothing;
            }
            let names = vec![model.tree[c].label.clone()];
            proof {
                assert(views(names@) =~= seq![model.tree@[c as int]@.label]);
            }
            let (mode, priority) = match msg {
                TuiMessage::UseProfileWithPriority(n) => (UseMode::Enable, Some(n)),
                _ => (UseMode::Toggle, None),
            };
            model.active_profiles = crate::session::use_profiles(
                model.active_profiles.as_slice(),
                names.as_slice(),
                mode,
                priority,
                false,
            );
            model.rebuild_tree();
            TuiRequest::Save
        },
        _ => TuiRequest::Nothing,
    }
}

} // verus!

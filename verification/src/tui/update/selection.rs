//! The set of selected aliases, kept in reference order.
use vstd::prelude::*;

use crate::alias_id::{id_equal, id_less, id_lt, lemma_id_lt_order, AliasId, IdSpec};
use crate::tui::model::{ids_view, Mode, NodeKind, NodeSpec, TuiModel};
use crate::tui::tree::nodes_view;

verus! {

/// The references are in strictly increasing order (so none twice).
pub open spec fn ids_sorted(s: Seq<IdSpec>) -> bool {
    forall|i: int, j: int| 0 <= i < j < s.len() ==> id_lt(#[trigger] s[i], #[trigger] s[j])
}

/// The selection is kept in reference order.
pub open spec fn selection_ok(m: TuiModel) -> bool {
    ids_sorted(ids_view(m.selected@))
}

/// The selected references, as a set.
pub open spec fn selection_set(m: TuiModel) -> Set<IdSpec> {
    ids_view(m.selected@).to_set()
}

/// The references collected after a header of kind `start`, from row `i`
/// on: alias and subcommand rows are taken, subcommand groups are walked
/// through, a program header ends the walk unless it started at a group,
/// and a scope header always ends it.
pub open spec fn child_walk(tree: Seq<NodeSpec>, start: NodeKind, i: int) -> Seq<IdSpec>
    decreases tree.len() - i,
{
    if i < 0 || i >= tree.len() {
        Seq::empty()
    } else {
        let n = tree[i];
        match n.kind {
            NodeKind::AliasItem | NodeKind::SubcommandItem => match n.alias_id {
                Some(id) => seq![id] + child_walk(tree, start, i + 1),
                None => child_walk(tree, start, i + 1),
            },
            NodeKind::SubcommandGroupNode => child_walk(tree, start, i + 1),
            NodeKind::SubcommandProgramHeader => if start != NodeKind::SubcommandGroupNode {
                Seq::empty()
            } else {
                child_walk(tree, start, i + 1)
            },
            _ => Seq::empty(),
        }
    }
}

/// The references that belong to the container whose header is row `h`.
pub open spec fn children_of(m: TuiModel, h: int) -> Seq<IdSpec> {
    child_walk(nodes_view(m.tree@), m.tree@[h].kind, h + 1)
}

/// The selection after a toggle at the cursor: an alias row flips its
/// own reference; a header deselects all its children when any is
/// selected, else selects them all.
pub open spec fn toggled_set(m: TuiModel) -> Set<IdSpec> {
    let s = selection_set(m);
    if !(m.mode is Normal || m.mode is Transfer) || m.cursor >= m.tree@.len() {
        s
    } else {
        let node = m.tree@[m.cursor as int]@;
        if crate::tui::model::selectable(node.kind) {
            match node.alias_id {
                Some(id) => if s.contains(id) {
                    s.remove(id)
                } else {
                    s.insert(id)
                },
                None => s,
            }
        } else {
            let kids = children_of(m, m.cursor as int);
            if kids.len() == 0 {
                s
            } else if exists|k: int| 0 <= k < kids.len() && s.contains(#[trigger] kids[k]) {
                s.difference(kids.to_set())
            } else {
                s.union(kids.to_set())
            }
        }
    }
}

/// Is the reference selected?
pub fn sel_contains(sel: &[AliasId], id: &AliasId) -> (r: bool)
    ensures
        r == ids_view(sel@).contains(id@),
{
    let mut i: usize = 0;
    while i < sel.len()
        invariant
            i <= sel@.len(),
            forall|j: int| 0 <= j < i ==> ids_view(sel@)[j] != id@,
        decreases sel@.len() - i,
    {
        if id_equal(&sel[i], id) {
            assert(ids_view(sel@)[i as int] == id@);
            return true;
        }
        i = i + 1;
    }
    proof {
        if ids_view(sel@).contains(id@) {
            let k = choose|k: int| 0 <= k < ids_view(sel@).len() && ids_view(sel@)[k] == id@;
            assert(ids_view(sel@)[k] != id@);
        }
    }
    false
}

/// Adds a reference at its place in the order (nothing when present).
pub fn sel_insert(sel: &mut Vec<AliasId>, id: AliasId)
    requires
        ids_sorted(ids_view(old(sel)@)),
    ensures
        ids_sorted(ids_view(final(sel)@)),
        ids_view(final(sel)@).to_set() == ids_view(old(sel)@).to_set().insert(id@),
{
    let ghost before = ids_view(sel@);
    let mut i: usize = 0;
    while i < sel.len() && id_less(&sel[i], &id)
        invariant
            i <= sel@.len(),
            before == ids_view(sel@),
            forall|j: int| 0 <= j < i ==> id_lt(#[trigger] before[j], id@),
        decreases sel@.len() - i,
    {
        i = i + 1;
    }
    if i < sel.len() && id_equal(&sel[i], &id) {
        proof {
            assert(before.to_set().insert(id@) =~= before.to_set()) by {
                assert(before[i as int] == id@);
            }
        }
        return;
    }
    proof {
        if i < before.len() {
            lemma_id_lt_order(before[i as int], id@, id@);
        }
    }
    sel.insert(i, id);
    proof {
        let after = ids_view(sel@);
        assert(after =~= before.insert(i as int, id@));
        assert forall|a: int, b: int| 0 <= a < b < after.len() implies id_lt(#[trigger] after[a], #[trigger] after[b]) by {
            if b < i {
            } else if b == i {
            } else if a < i {
                lemma_id_lt_order(after[a], id@, after[b]);
                if b - 1 > i {
                    lemma_id_lt_order(id@, before[i as int], before[b - 1]);
                }
            } else if a == i {
                if b - 1 > i {
                    lemma_id_lt_order(id@, before[i as int], before[b - 1]);
                }
            } else {
            }
        }
        assert(after.to_set() =~= before.to_set().insert(id@)) by {
            assert forall|x: IdSpec| after.to_set().contains(x) implies before.to_set().insert(id@).contains(x) by {
                let k = choose|k: int| 0 <= k < after.len() && after[k] == x;
                if k < i {
                    assert(before[k] == x);
                } else if k > i {
                    assert(before[k - 1] == x);
                }
            }
            assert forall|x: IdSpec| before.to_set().insert(id@).contains(x) implies after.to_set().contains(x) by {
                if x == id@ {
                    assert(after[i as int] == x);
                } else {
                    let k = choose|k: int| 0 <= k < before.len() && before[k] == x;
                    if k < i {
                        assert(after[k] == x);
                    } else {
                        assert(after[k + 1] == x);
                    }
                }
            }
        }
    }
}

/// Removes a reference (nothing when absent).
pub fn sel_remove(sel: &mut Vec<AliasId>, id: &AliasId)
    requires
        ids_sorted(ids_view(old(sel)@)),
    ensures
        ids_sorted(ids_view(final(sel)@)),
        ids_view(final(sel)@).to_set() == ids_view(old(sel)@).to_set().remove(id@),
{
    let ghost before = ids_view(sel@);
    let mut i: usize = 0;
    while i < sel.len()
        invariant
            i <= sel@.len(),
            before == ids_view(sel@),
            before == ids_view(old(sel)@),
            ids_sorted(before),
            forall|j: int| 0 <= j < i ==> before[j] != id@,
        decreases sel@.len() - i,
    {
        if id_equal(&sel[i], id) {
            sel.remove(i);
            proof {
                let after = ids_view(sel@);
                assert(before[i as int] == id@);
                assert(after =~= before.remove(i as int));
                assert forall|a: int, b: int| 0 <= a < b < after.len() implies id_lt(#[trigger] after[a], #[trigger] after[b]) by {
                    if a < i && b >= i {
                        assert(id_lt(before[a], before[b + 1]));
                    } else if a >= i {
                        assert(id_lt(before[a + 1], before[b + 1]));
                    } else {
                        assert(id_lt(before[a], before[b]));
                    }
                }
                assert forall|j: int| 0 <= j < before.len() && j != i implies before[j] != id@ by {
                    if j > i {
                        lemma_id_lt_order(before[i as int], before[j], before[j]);
                    }
                }
                assert(after.to_set() =~= before.to_set().remove(id@)) by {
                    assert forall|x: IdSpec| after.to_set().contains(x) implies before.to_set().remove(id@).contains(x) by {
                        let k = choose|k: int| 0 <= k < after.len() && after[k] == x;
                        if k < i {
                            assert(before[k] == x);
                        } else {
                            assert(before[k + 1] == x);
                        }
                    }
                    assert forall|x: IdSpec| before.to_set().remove(id@).contains(x) implies after.to_set().contains(x) by {
                        let k = choose|k: int| 0 <= k < before.len() && before[k] == x;
                        if k < i {
                            assert(after[k] == x);
                        } else {
                            assert(after[k - 1] == x);
                        }
                    }
                }
            }
            return;
        }
        i = i + 1;
    }
    proof {
        assert(before.to_set().remove(id@) =~= before.to_set()) by {
            if before.to_set().contains(id@) {
                let k = choose|k: int| 0 <= k < before.len() && before[k] == id@;
                assert(before[k] != id@);
            }
        }
    }
}

/// The references that belong to the container whose header is at
/// `header_idx`.
pub fn collect_child_aliases(model: &TuiModel, header_idx: usize) -> (r: Vec<AliasId>)
    requires
        header_idx < model.tree@.len(),
    ensures
        ids_view(r@) == children_of(*model, header_idx as int),
{
    let ghost t = nodes_view(model.tree@);
    let start = model.tree[header_idx].kind;
    let mut ids: Vec<AliasId> = Vec::new();
    let n = model.tree.len();
    let mut i: usize = header_idx + 1;
    while i < n
        invariant
            header_idx < i <= model.tree@.len(),
            n == model.tree@.len(),
            t == nodes_view(model.tree@),
            start == model.tree@[header_idx as int].kind,
            ids_view(ids@) + child_walk(t, start, i as int) == child_walk(t, start, header_idx + 1),
        decreases model.tree@.len() - i,
    {
        let node = &model.tree[i];
        assert(t[i as int] == node@);
        match node.kind {
            NodeKind::AliasItem | NodeKind::SubcommandItem => {
                if let Some(id) = &node.alias_id {
                    let ghost before = ids_view(ids@);
                    ids.push(id.dup());
                    assert(ids_view(ids@) =~= before.push(id@));
                    assert(ids_view(ids@) + child_walk(t, start, i + 1) =~= before + (seq![id@] + child_walk(t, start, i + 1)));
                }
            },
            NodeKind::SubcommandGroupNode => {},
            NodeKind::SubcommandProgramHeader => {
                if start != NodeKind::SubcommandGroupNode {
                    assert(ids_view(ids@) + Seq::<IdSpec>::empty() =~= ids_view(ids@));
                    return ids;
                }
            },
            _ => {
                assert(ids_view(ids@) + Seq::<IdSpec>::empty() =~= ids_view(ids@));
                return ids;
            },
        }
        i = i + 1;
    }
    assert(ids_view(ids@) + Seq::<IdSpec>::empty() =~= ids_view(ids@));
    ids
}

/// Toggles the selection at the cursor: an alias row flips its own
/// reference; a header deselects all its children when any is selected,
/// else selects them all. Only in normal and transfer mode.
pub fn handle_toggle(model: &mut TuiModel)
    requires
        selection_ok(*old(model)),
    ensures
        selection_ok(*final(model)),
        selection_set(*final(model)) == toggled_set(*old(model)),
        *final(model) == (TuiModel { selected: final(model).selected, ..*old(model) }),
{
    let ok_mode = match model.mode {
        Mode::Normal | Mode::Transfer(_) => true,
        _ => false,
    };
    if !ok_mode || model.cursor >= model.tree.len() {
        return;
    }
    let c = model.cursor;
    if model.tree[c].kind.is_selectable() {
        if let Some(id) = &model.tree[c].alias_id {
            let id = id.dup();
            if sel_contains(model.selected.as_slice(), &id) {
                sel_remove(&mut model.selected, &id);
            } else {
                sel_insert(&mut model.selected, id);
            }
        }
    } else {
        let kids = collect_child_aliases(model, c);
        if kids.len() == 0 {
            return;
        }
        let ghost s = selection_set(*model);
        let ghost kv = ids_view(kids@);
        let mut any = false;
        let mut k: usize = 0;
        while k < kids.len()
            invariant
                k <= kids@.len(),
                kv == ids_view(kids@),
                s == selection_set(*model),
                any == exists|j: int| 0 <= j < k && s.contains(#[trigger] kv[j]),
            decreases kids@.len() - k,
        {
            if sel_contains(model.selected.as_slice(), &kids[k]) {
                any = true;
            }
            proof {
                if !any {
                    assert forall|j: int| 0 <= j < k + 1 implies !s.contains(#[trigger] kv[j]) by {}
                } else if exists|j: int| 0 <= j < k && s.contains(#[trigger] kv[j]) {
                    let j = choose|j: int| 0 <= j < k && s.contains(#[trigger] kv[j]);
                    assert(0 <= j < k + 1 && s.contains(kv[j]));
                } else {
                    assert(s.contains(kv[k as int]));
                }
            }
            k = k + 1;
        }
        let ghost m0 = *model;
        let mut j: usize = 0;
        while j < kids.len()
            invariant
                j <= kids@.len(),
                kv == ids_view(kids@),
                ids_sorted(ids_view(model.selected@)),
                *model == (TuiModel { selected: model.selected, ..m0 }),
                selection_set(*model) == if any {
                    s.difference(kv.take(j as int).to_set())
                } else {
                    s.union(kv.take(j as int).to_set())
                },
            decreases kids@.len() - j,
        {
            let ghost before = selection_set(*model);
            if any {
                sel_remove(&mut model.selected, &kids[j]);
                assert(s.difference(kv.take(j + 1).to_set()) =~= before.remove(kv[j as int])) by {
                    assert(kv.take(j + 1) =~= kv.take(j as int).push(kv[j as int]));
                    kv.take(j as int).lemma_push_to_set_commute(kv[j as int]);
                }
            } else {
                sel_insert(&mut model.selected, kids[j].dup());
                assert(s.union(kv.take(j + 1).to_set()) =~= before.insert(kv[j as int])) by {
                    assert(kv.take(j + 1) =~= kv.take(j as int).push(kv[j as int]));
                    kv.take(j as int).lemma_push_to_set_commute(kv[j as int]);
                }
            }
            j = j + 1;
        }
        assert(kv.take(kids@.len() as int) =~= kv);
    }
}

/// Toggling an alias row twice gives the selection back.
pub proof fn law_toggle_select_twice(m: TuiModel, m2: TuiModel)
    requires
        m.mode is Normal || m.mode is Transfer,
        m.cursor < m.tree@.len(),
        crate::tui::model::selectable(m.tree@[m.cursor as int].kind),
        m.tree@[m.cursor as int]@.alias_id is Some,
        m2 == (TuiModel { selected: m2.selected, ..m }),
        selection_set(m2) == toggled_set(m),
    ensures
        toggled_set(m2) == selection_set(m),
{
    let id = m.tree@[m.cursor as int]@.alias_id->Some_0;
    let s = selection_set(m);
    if s.contains(id) {
        assert(s.remove(id).insert(id) =~= s);
    } else {
        assert(s.insert(id).remove(id) =~= s);
    }
}

} // verus!

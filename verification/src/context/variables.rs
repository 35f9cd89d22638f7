//! The `## Variables` section.
use vstd::prelude::*;

use super::escape::{escape_md, escape_md_cell};
use super::LayerInputs;
use crate::precedence::ProfileLayer;
use crate::strmap::{
    entries_view, fold_inserts, keys_sorted, lemma_fold_inserts_sorted, lemma_sorted_pairs_of,
    pair_keys, pairs_map, sorted_pairs, StrMap,
};
use crate::text::{push_str, string_from};
use crate::vars::VarSet;

verus! {

/// Each variable of `m` with its value and the label of its scope.
pub open spec fn labelled(m: Map<Seq<char>, Seq<char>>, label: Seq<char>) -> Map<
    Seq<char>,
    (Seq<char>, Seq<char>),
> {
    Map::new(|k: Seq<char>| m.contains_key(k), |k: Seq<char>| (m[k], label))
}

/// `base` overridden by each profile's labelled variables in slice order.
pub open spec fn profile_var_rows(
    base: Map<Seq<char>, (Seq<char>, Seq<char>)>,
    ps: Seq<ProfileLayer>,
) -> Map<Seq<char>, (Seq<char>, Seq<char>)>
    decreases ps.len(),
{
    if ps.len() == 0 {
        base
    } else {
        profile_var_rows(base, ps.drop_last()).union_prefer_right(
            labelled(ps.last().vars@, "profile:"@ + ps.last().name@),
        )
    }
}

/// Each defined variable with the value and scope that win: project over
/// profiles (later in the slice first) over global.
pub open spec fn var_rows(l: LayerInputs) -> Map<Seq<char>, (Seq<char>, Seq<char>)> {
    profile_var_rows(labelled(l.global_vars@, "global"@), l.profile_layers@).union_prefer_right(
        labelled(l.project_vars@, "project"@),
    )
}

/// The table lines over the rows accumulated so far.
pub open spec fn var_table_acc(rows: Seq<(Seq<char>, (Seq<char>, Seq<char>))>) -> Seq<char>
    decreases rows.len(),
{
    if rows.len() == 0 {
        "## Variables\n\n"@ + "| name | value | from |\n"@ + "|------|-------|------|\n"@
    } else {
        var_table_acc(rows.drop_last()) + "| "@ + escape_md(rows.last().0) + " | "@ + escape_md(
            rows.last().1.0,
        ) + " | "@ + escape_md(rows.last().1.1) + " |\n"@
    }
}

/// The whole `## Variables` section for the layers.
pub open spec fn variables_text(l: LayerInputs) -> Seq<char> {
    if var_rows(l).len() == 0 {
        Seq::empty()
    } else {
        var_table_acc(sorted_pairs(var_rows(l)))
    }
}

/// Adds a scope's variables under one label, overriding earlier rows.
fn add_rows(rows: &mut StrMap<String, (String, String)>, vars: &VarSet, label: &str)
    ensures
        final(rows).spec_map() == old(rows).spec_map().union_prefer_right(labelled(vars@, label@)),
{
    let entries = vars.entries();
    let ghost pairs = vars.pairs();
    let ghost lp = pairs.map_values(|p: (Seq<char>, Seq<char>)| (p.0, (p.1, label@)));
    let ghost start = rows.spec_map();
    proof {
        assert(pair_keys(lp) =~= pair_keys(pairs));
    }
    let mut i: usize = 0;
    while i < entries.len()
        invariant
            i <= entries@.len(),
            entries@.map_values(|p: (crate::vars::VarName, String)| (p.0@, p.1@)) == pairs,
            lp == pairs.map_values(|p: (Seq<char>, Seq<char>)| (p.0, (p.1, label@))),
            lp.len() == pairs.len(),
            rows.spec_map() == fold_inserts(start, lp.take(i as int)),
        decreases entries@.len() - i,
    {
        let name = string_from(entries[i].0.as_str());
        let value = entries[i].1.clone();
        rows.insert(name, (value, string_from(label)));
        proof {
            assert(lp.take(i + 1).drop_last() =~= lp.take(i as int));
            assert(lp.take(i + 1).last() == lp[i as int]);
        }
        i = i + 1;
    }
    proof {
        assert(lp.take(entries@.len() as int) =~= lp);
        lemma_fold_inserts_sorted(lp, start);
        assert(pairs_map(lp) =~= labelled(vars@, label@)) by {
            assert forall|k: Seq<char>| #[trigger] pairs_map(lp).contains_key(k) == labelled(vars@, label@).contains_key(k) && (pairs_map(lp).contains_key(k) ==> pairs_map(lp)[k] == labelled(vars@, label@)[k]) by {
                if crate::strmap::has_key(pairs, k) {
                    let j = crate::strmap::key_index(pairs, k);
                    crate::strmap::lemma_pairs_map_at(pairs, j);
                    crate::strmap::lemma_pairs_map_at(lp, j);
                    assert(lp[j].0 == k);
                }
                if crate::strmap::has_key(lp, k) {
                    let j = crate::strmap::key_index(lp, k);
                    crate::strmap::lemma_pairs_map_at(lp, j);
                    crate::strmap::lemma_pairs_map_at(pairs, j);
                    assert(pairs[j].0 == k);
                }
            }
        }
    }
}

/// The `## Variables` table: each defined variable once, with the value and
/// scope that win precedence, in name order. Empty when no scope defines one.
pub fn render_variables(layers: &LayerInputs) -> (r: String)
    ensures
        r@ == variables_text(*layers),
{
    let mut rows: StrMap<String, (String, String)> = StrMap::new();
    add_rows(&mut rows, layers.global_vars, "global");
    let ghost base = rows.spec_map();
    proof {
        assert(base =~= labelled(layers.global_vars@, "global"@));
    }
    let mut i: usize = 0;
    while i < layers.profile_layers.len()
        invariant
            i <= layers.profile_layers@.len(),
            base == labelled(layers.global_vars@, "global"@),
            rows.spec_map() == profile_var_rows(base, layers.profile_layers@.take(i as int)),
        decreases layers.profile_layers@.len() - i,
    {
        let layer = &layers.profile_layers[i];
        let mut label = string_from("profile:");
        push_str(&mut label, layer.name.as_str());
        add_rows(&mut rows, &layer.vars, label.as_str());
        proof {
            assert(layers.profile_layers@.take(i + 1).drop_last() =~= layers.profile_layers@.take(
                i as int,
            ));
        }
        i = i + 1;
    }
    proof {
        assert(layers.profile_layers@.take(layers.profile_layers@.len() as int)
            =~= layers.profile_layers@);
    }
    add_rows(&mut rows, layers.project_vars, "project");
    let n = rows.len();
    if n == 0 {
        return String::new();
    }
    let entries = rows.entries();
    let ghost pairs = rows.spec_pairs();
    proof {
        lemma_sorted_pairs_of(pairs);
    }
    let mut out = string_from("## Variables\n\n");
    push_str(&mut out, "| name | value | from |\n");
    push_str(&mut out, "|------|-------|------|\n");
    let mut j: usize = 0;
    proof {
        assert(pairs.take(0) =~= Seq::<(Seq<char>, (Seq<char>, Seq<char>))>::empty());
    }
    while j < entries.len()
        invariant
            j <= entries@.len(),
            entries_view(entries@) == pairs,
            out@ == var_table_acc(pairs.take(j as int)),
        decreases entries@.len() - j,
    {
        let name = escape_md_cell(entries[j].0.as_str());
        let value = escape_md_cell(entries[j].1.0.as_str());
        let from = escape_md_cell(entries[j].1.1.as_str());
        push_str(&mut out, "| ");
        push_str(&mut out, name.as_str());
        push_str(&mut out, " | ");
        push_str(&mut out, value.as_str());
        push_str(&mut out, " | ");
        push_str(&mut out, from.as_str());
        push_str(&mut out, " |\n");
        proof {
            assert(pairs.take(j + 1).drop_last() =~= pairs.take(j as int));
            assert(pairs.take(j + 1).last() == pairs[j as int]);
        }
        j = j + 1;
    }
    proof {
        assert(pairs.take(entries@.len() as int) =~= pairs);
    }
    out
}

} // verus!

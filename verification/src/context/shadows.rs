//! The `## Shadowed` section: names defined in more than one layer.
use vstd::prelude::*;

use super::escape::{escape_md, escape_md_cell};
use super::LayerInputs;
use crate::alias::{AliasSet, AliasSpec};
use crate::precedence::{origin_label, OriginScope, OriginSpec, ProfileLayer};
use crate::strmap::{
    entries_view, keys_sorted, lemma_sorted_pairs_of, pair_keys, pairs_map, sorted_pairs, StrMap,
};
use crate::text::{join_spec, join_strs, push_str, seq_lt, str_equal, str_lt, string_from, views};

verus! {

/// The scopes defining each name so far, highest precedence first.
pub struct Origins(pub Vec<OriginScope>);

impl View for Origins {
    type V = Seq<OriginSpec>;

    open spec fn view(&self) -> Seq<OriginSpec> {
        self.0@.map_values(|o: OriginScope| o@)
    }
}

/// `m` with `o` appended for every name of `dom`.
pub open spec fn add_origin(
    m: Map<Seq<char>, Seq<OriginSpec>>,
    dom: Set<Seq<char>>,
    o: OriginSpec,
) -> Map<Seq<char>, Seq<OriginSpec>> {
    Map::new(
        |k: Seq<char>| m.contains_key(k) || dom.contains(k),
        |k: Seq<char>|
            if dom.contains(k) {
                (if m.contains_key(k) {
                    m[k]
                } else {
                    Seq::empty()
                }).push(o)
            } else {
                m[k]
            },
    )
}

/// Adds the profiles' alias names, the last profile of the slice first.
pub open spec fn add_profiles_rev(m: Map<Seq<char>, Seq<OriginSpec>>, ps: Seq<ProfileLayer>) -> Map<
    Seq<char>,
    Seq<OriginSpec>,
>
    decreases ps.len(),
{
    if ps.len() == 0 {
        m
    } else {
        add_profiles_rev(
            add_origin(m, ps.last().aliases@.dom(), OriginSpec::Profile(ps.last().name@)),
            ps.drop_last(),
        )
    }
}

/// For every alias name of any layer, the scopes defining it, highest
/// precedence first: project, profiles (later in the slice first), global.
pub open spec fn definitions(l: LayerInputs) -> Map<Seq<char>, Seq<OriginSpec>> {
    add_origin(
        add_profiles_rev(
            add_origin(Map::empty(), l.project_aliases@.dom(), OriginSpec::Project),
            l.profile_layers@,
        ),
        l.global_aliases@.dom(),
        OriginSpec::Global,
    )
}

/// The first profile layer with a given name.
pub open spec fn first_layer_named(ps: Seq<ProfileLayer>, name: Seq<char>) -> Option<int>
    decreases ps.len(),
{
    if ps.len() == 0 {
        None
    } else {
        match first_layer_named(ps.drop_last(), name) {
            Some(i) => Some(i),
            None => if ps.last().name@ == name {
                Some(ps.len() - 1)
            } else {
                None
            },
        }
    }
}

/// The command an alias has in a given scope, where the scope's set has it.
pub open spec fn expansion_at(name: Seq<char>, o: OriginSpec, l: LayerInputs) -> Option<Seq<char>> {
    let set: Option<Map<Seq<char>, AliasSpec>> = match o {
        OriginSpec::Project => Some(l.project_aliases@),
        OriginSpec::Global => Some(l.global_aliases@),
        OriginSpec::Profile(n) => match first_layer_named(l.profile_layers@, n) {
            Some(i) => Some(l.profile_layers@[i].aliases@),
            None => None,
        },
    };
    match set {
        Some(m) => if m.contains_key(name) {
            Some(m[name].command)
        } else {
            None
        },
        None => None,
    }
}

/// A verbose row: name, expansion at the losing scope, losing label, winning label.
pub type ShadowRow = (Seq<char>, Seq<char>, Seq<char>, Seq<char>);

/// The verbose rows of one name: each losing scope, lowest precedence
/// first, with the winner.
pub open spec fn name_rows(name: Seq<char>, defs: Seq<OriginSpec>, k: int, l: LayerInputs) -> Seq<
    ShadowRow,
>
    decreases k,
{
    if k <= 0 || defs.len() < 2 {
        Seq::empty()
    } else {
        let i = defs.len() - k;
        name_rows(name, defs, k - 1, l).push(
            (name, expansion_at(name, defs[i], l)->0, origin_label(defs[i]), origin_label(defs[0])),
        )
    }
}

/// The verbose rows over the names so far, in name order.
pub open spec fn shadow_rows(pairs: Seq<(Seq<char>, Seq<OriginSpec>)>, l: LayerInputs) -> Seq<
    ShadowRow,
>
    decreases pairs.len(),
{
    if pairs.len() == 0 {
        Seq::empty()
    } else {
        let p = pairs.last();
        shadow_rows(pairs.drop_last(), l) + name_rows(p.0, p.1, p.1.len() - 1, l)
    }
}

/// Every losing definition has an expansion in its scope.
pub open spec fn shadows_resolvable(l: LayerInputs) -> bool {
    forall|k: Seq<char>, i: int|
        definitions(l).contains_key(k) && 1 <= i < definitions(l)[k].len() ==> (#[trigger] expansion_at(
            k,
            definitions(l)[k][i],
            l,
        )) is Some
}

/// The verbose table over the rows so far.
pub open spec fn verbose_acc(rows: Seq<ShadowRow>) -> Seq<char>
    decreases rows.len(),
{
    if rows.len() == 0 {
        "## Shadowed\n\n"@ + "| name | expansion | from | shadowed by |\n"@
            + "|------|-----------|------|-------------|\n"@
    } else {
        let r = rows.last();
        verbose_acc(rows.drop_last()) + "| "@ + escape_md(r.0) + " | "@ + escape_md(r.1) + " | "@
            + escape_md(r.2) + " | "@ + escape_md(r.3) + " |\n"@
    }
}

/// The whole verbose section for the layers.
pub open spec fn verbose_text(l: LayerInputs) -> Seq<char> {
    if shadow_rows(sorted_pairs(definitions(l)), l).len() == 0 {
        Seq::empty()
    } else {
        verbose_acc(shadow_rows(sorted_pairs(definitions(l)), l))
    }
}

/// The definitions of the layers, collected.
fn add_names(defs: &mut StrMap<String, Origins>, set: &AliasSet, origin: &OriginScope)
    ensures
        final(defs).spec_map() == add_origin(old(defs).spec_map(), set@.dom(), origin@),
{
    let entries = set.entries();
    let ghost pairs = set.pairs();
    let ghost start = defs.spec_map();
    let mut i: usize = 0;
    proof {
        assert(pairs_map(pairs.take(0)) =~= Map::<Seq<char>, AliasSpec>::empty());
        assert(defs.spec_map() =~= add_origin(start, pairs_map(pairs.take(0)).dom(), origin@));
    }
    while i < entries.len()
        invariant
            i <= entries@.len(),
            entries@.map_values(|p: (crate::alias::AliasName, crate::alias::TomlAlias)| (p.0@, p.1@))
                == pairs,
            keys_sorted(pair_keys(pairs)),
            pairs_map(pairs) == set@,
            defs.spec_map() == add_origin(start, pairs_map(pairs.take(i as int)).dom(), origin@),
        decreases entries@.len() - i,
    {
        let name = entries[i].0.as_str();
        let ghost before = pairs.take(i as int);
        let ghost after = pairs.take(i + 1);
        proof {
            assert(after.drop_last() =~= before);
            assert(after =~= before.push(pairs[i as int]));
            crate::strmap::lemma_take_sorted(pairs, i + 1);
            crate::strmap::lemma_pairs_map_push(before, pairs[i as int]);
            assert(pairs[i as int].0 == name@);
        }
        let ghost m0 = defs.spec_map();
        let prev = defs.remove(name);
        let mut list = match prev {
            Some(o) => o,
            None => Origins(Vec::new()),
        };
        let ghost lb = list.0@;
        list.0.push(origin.dup());
        proof {
            assert(list.0@ =~= lb.push(list.0@.last()));
            assert(list@ =~= lb.map_values(|o: OriginScope| o@).push(origin@));
        }
        defs.insert(string_from(name), list);
        proof {
            let d0 = pairs_map(before).dom();
            let d1 = pairs_map(after).dom();
            assert(d1 =~= d0.insert(name@));
            assert(defs.spec_map() =~= add_origin(start, d1, origin@)) by {
                assert forall|k: Seq<char>| #[trigger] defs.spec_map().contains_key(k) == add_origin(start, d1, origin@).contains_key(k) && (defs.spec_map().contains_key(k) ==> defs.spec_map()[k] == add_origin(start, d1, origin@)[k]) by {
                    if k == name@ {
                        if m0.contains_key(k) {
                            assert(list@ == m0[k].push(origin@));
                        }
                        if d0.contains(k) {
                            let j = crate::strmap::key_index(before, k);
                            assert(before[j].0 == k);
                            assert(seq_lt(pair_keys(pairs)[j], pair_keys(pairs)[i as int]));
                            crate::text::lemma_seq_lt_irreflexive(k);
                        }
                    }
                }
            }
        }
        i = i + 1;
    }
    proof {
        assert(pairs.take(entries@.len() as int) =~= pairs);
    }
}

fn collect_definitions(layers: &LayerInputs) -> (r: StrMap<String, Origins>)
    ensures
        r.spec_map() == definitions(*layers),
{
    let mut defs: StrMap<String, Origins> = StrMap::new();
    add_names(&mut defs, layers.project_aliases, &OriginScope::Project);
    let ghost base = defs.spec_map();
    let mut j = layers.profile_layers.len();
    proof {
        assert(layers.profile_layers@.take(j as int) =~= layers.profile_layers@);
    }
    while j > 0
        invariant
            j <= layers.profile_layers@.len(),
            add_profiles_rev(base, layers.profile_layers@) == add_profiles_rev(
                defs.spec_map(),
                layers.profile_layers@.take(j as int),
            ),
        decreases j,
    {
        let layer = &layers.profile_layers[j - 1];
        let origin = OriginScope::Profile(layer.name.clone());
        proof {
            assert(layers.profile_layers@.take(j as int).drop_last() =~= layers.profile_layers@.take(
                j - 1,
            ));
            assert(layers.profile_layers@.take(j as int).last() == *layer);
        }
        add_names(&mut defs, &layer.aliases, &origin);
        j = j - 1;
    }
    proof {
        assert(layers.profile_layers@.take(0) =~= Seq::<ProfileLayer>::empty());
    }
    add_names(&mut defs, layers.global_aliases, &OriginScope::Global);
    proof {
        assert(base =~= add_origin(Map::empty(), layers.project_aliases@.dom(), OriginSpec::Project));
    }
    defs
}

fn first_layer_named_exec(ps: &[ProfileLayer], name: &str) -> (r: Option<usize>)
    ensures
        match first_layer_named(ps@, name@) {
            Some(i) => r == Some(i as usize),
            None => r is None,
        },
{
    let mut i: usize = 0;
    while i < ps.len()
        invariant
            i <= ps@.len(),
            first_layer_named(ps@.take(i as int), name@) is None,
        decreases ps@.len() - i,
    {
        proof {
            assert(ps@.take(i + 1).drop_last() =~= ps@.take(i as int));
        }
        if str_equal(ps[i].name.as_str(), name) {
            proof {
                lemma_first_layer_prefix(ps@, i + 1, name@);
            }
            return Some(i);
        }
        i = i + 1;
    }
    proof {
        assert(ps@.take(ps@.len() as int) =~= ps@);
    }
    None
}

proof fn lemma_first_layer_prefix(ps: Seq<ProfileLayer>, n: int, name: Seq<char>)
    requires
        0 < n <= ps.len(),
        first_layer_named(ps.take(n), name) is Some,
    ensures
        first_layer_named(ps, name) == first_layer_named(ps.take(n), name),
    decreases ps.len(),
{
    if n < ps.len() {
        assert(ps.drop_last().take(n) =~= ps.take(n));
        lemma_first_layer_prefix(ps.drop_last(), n, name);
    } else {
        assert(ps.take(n) =~= ps);
    }
}

proof fn lemma_first_layer_bound(ps: Seq<ProfileLayer>, name: Seq<char>)
    ensures
        first_layer_named(ps, name) matches Some(i) ==> 0 <= i < ps.len(),
    decreases ps.len(),
{
    if ps.len() > 0 {
        lemma_first_layer_bound(ps.drop_last(), name);
    }
}

fn expansion_at_exec(name: &str, origin: &OriginScope, layers: &LayerInputs) -> (r: Option<String>)
    ensures
        match expansion_at(name@, origin@, *layers) {
            Some(e) => r matches Some(s) && s@ == e,
            None => r is None,
        },
{
    let set: &AliasSet = match origin {
        OriginScope::Project => layers.project_aliases,
        OriginScope::Global => layers.global_aliases,
        OriginScope::Profile(n) => {
            proof {
                lemma_first_layer_bound(layers.profile_layers@, n@);
            }
            match first_layer_named_exec(layers.profile_layers, n.as_str()) {
                Some(i) => &layers.profile_layers[i].aliases,
                None => {
                    return None;
                },
            }
        },
    };
    match set.get_str(name) {
        Some(a) => Some(string_from(a.command())),
        None => None,
    }
}

/// The verbose `## Shadowed` table: one row per losing definition of a name
/// defined in several layers, with its expansion there, its scope and the
/// winning scope; rows by name, then lowest precedence first. Empty when
/// nothing is shadowed.
pub fn render_shadow_verbose(layers: &LayerInputs) -> (r: String)
    requires
        shadows_resolvable(*layers),
    ensures
        r@ == verbose_text(*layers),
{
    let defs = collect_definitions(layers);
    let entries = defs.entries();
    let ghost pairs = defs.spec_pairs();
    proof {
        lemma_sorted_pairs_of(pairs);
    }
    let mut rows: Vec<(String, String, String, String)> = Vec::new();
    let mut i: usize = 0;
    proof {
        assert(pairs.take(0) =~= Seq::<(Seq<char>, Seq<OriginSpec>)>::empty());
    }
    while i < entries.len()
        invariant
            i <= entries@.len(),
            entries_view(entries@) == pairs,
            pairs == sorted_pairs(definitions(*layers)),
            pairs_map(pairs) == definitions(*layers),
            keys_sorted(pair_keys(pairs)),
            shadows_resolvable(*layers),
            rows@.map_values(|r: (String, String, String, String)| (r.0@, r.1@, r.2@, r.3@))
                == shadow_rows(pairs.take(i as int), *layers),
        decreases entries@.len() - i,
    {
        let name = &entries[i].0;
        let scopes = &entries[i].1.0;
        let ghost p = pairs[i as int];
        proof {
            assert(p == (name@, entries[i as int].1@));
            crate::strmap::lemma_pairs_map_at(pairs, i as int);
            assert(definitions(*layers)[name@] == p.1);
        }
        let n = scopes.len();
        if n >= 2 {
            let winner = scopes[0].as_from_label();
            let mut k: usize = 1;
            let ghost rb = rows@.map_values(|r: (String, String, String, String)| (r.0@, r.1@, r.2@, r.3@));
            while k < n
                invariant
                    2 <= n == scopes@.len(),
                    1 <= k <= n,
                    p.1 == scopes@.map_values(|o: OriginScope| o@),
                    p.0 == name@,
                    definitions(*layers).contains_key(name@),
                    definitions(*layers)[name@] == p.1,
                    shadows_resolvable(*layers),
                    winner@ == origin_label(p.1[0]),
                    rows@.map_values(|r: (String, String, String, String)| (r.0@, r.1@, r.2@, r.3@))
                        == rb + name_rows(name@, p.1, k - 1, *layers),
                decreases n - k,
            {
                let idx = n - k;
                let loser = &scopes[idx];
                proof {
                    assert(p.1[idx as int] == loser@);
                    assert(expansion_at(name@, definitions(*layers)[name@][idx as int], *layers) is Some);
                }
                let exp = match expansion_at_exec(name.as_str(), loser, layers) {
                    Some(e) => e,
                    None => {
                        assert(false);
                        String::new()
                    },
                };
                let row = (name.clone(), exp, loser.as_from_label(), winner.clone());
                let ghost before = rows@;
                rows.push(row);
                proof {
                    assert(rows@ =~= before.push(row));
                    assert(rows@.map_values(|r: (String, String, String, String)| (r.0@, r.1@, r.2@, r.3@))
                        =~= before.map_values(|r: (String, String, String, String)| (r.0@, r.1@, r.2@, r.3@)).push(
                        (row.0@, row.1@, row.2@, row.3@),
                    ));
                }
                k = k + 1;
            }
        }
        proof {
            assert(pairs.take(i + 1).drop_last() =~= pairs.take(i as int));
            assert(pairs.take(i + 1).last() == p);
            assert(rows@.map_values(|r: (String, String, String, String)| (r.0@, r.1@, r.2@, r.3@))
                =~= shadow_rows(pairs.take(i + 1), *layers));
        }
        i = i + 1;
    }
    proof {
        assert(pairs.take(entries@.len() as int) =~= pairs);
    }
    let ghost rv = rows@.map_values(|r: (String, String, String, String)| (r.0@, r.1@, r.2@, r.3@));
    if rows.len() == 0 {
        return String::new();
    }
    let mut out = string_from("## Shadowed\n\n");
    push_str(&mut out, "| name | expansion | from | shadowed by |\n");
    push_str(&mut out, "|------|-----------|------|-------------|\n");
    let mut j: usize = 0;
    proof {
        assert(rv.take(0) =~= Seq::<ShadowRow>::empty());
    }
    while j < rows.len()
        invariant
            j <= rows@.len(),
            rv == rows@.map_values(|r: (String, String, String, String)| (r.0@, r.1@, r.2@, r.3@)),
            out@ == verbose_acc(rv.take(j as int)),
        decreases rows@.len() - j,
    {
        let r = &rows[j];
        push_str(&mut out, "| ");
        let a = escape_md_cell(r.0.as_str());
        push_str(&mut out, a.as_str());
        push_str(&mut out, " | ");
        let b = escape_md_cell(r.1.as_str());
        push_str(&mut out, b.as_str());
        push_str(&mut out, " | ");
        let c = escape_md_cell(r.2.as_str());
        push_str(&mut out, c.as_str());
        push_str(&mut out, " | ");
        let d = escape_md_cell(r.3.as_str());
        push_str(&mut out, d.as_str());
        push_str(&mut out, " |\n");
        proof {
            assert(rv.take(j + 1).drop_last() =~= rv.take(j as int));
            assert(rv.take(j + 1).last() == rv[j as int]);
        }
        j = j + 1;
    }
    proof {
        assert(rv.take(rows@.len() as int) =~= rv);
    }
    out
}

/// A brief group: losing label, winning label, and the names shadowed that way.
pub type Group = (Seq<char>, Seq<char>, Seq<Seq<char>>);

/// Order of label pairs: by losing label, then by winning label.
pub open spec fn pair_lt(l1: Seq<char>, w1: Seq<char>, l2: Seq<char>, w2: Seq<char>) -> bool {
    seq_lt(l1, l2) || (l1 == l2 && seq_lt(w1, w2))
}

/// Files `name` under its label pair in groups kept in pair order.
pub open spec fn group_add(gs: Seq<Group>, name: Seq<char>, l: Seq<char>, w: Seq<char>) -> Seq<Group>
    decreases gs.len(),
{
    if gs.len() == 0 {
        seq![(l, w, seq![name])]
    } else {
        let g = gs.last();
        if g.0 == l && g.1 == w {
            gs.drop_last().push((l, w, g.2.push(name)))
        } else if pair_lt(l, w, g.0, g.1) {
            group_add(gs.drop_last(), name, l, w).push(g)
        } else {
            gs.push((l, w, seq![name]))
        }
    }
}

/// Files the losing definitions of one name, from index `k` on.
pub open spec fn group_name(gs: Seq<Group>, name: Seq<char>, defs: Seq<OriginSpec>, k: int) -> Seq<
    Group,
>
    decreases k,
{
    if k <= 1 {
        gs
    } else {
        group_add(
            group_name(gs, name, defs, k - 1),
            name,
            origin_label(defs[k - 1]),
            origin_label(defs[0]),
        )
    }
}

/// The brief groups over the names so far.
pub open spec fn brief_groups(pairs: Seq<(Seq<char>, Seq<OriginSpec>)>) -> Seq<Group>
    decreases pairs.len(),
{
    if pairs.len() == 0 {
        Seq::empty()
    } else {
        let p = pairs.last();
        group_name(brief_groups(pairs.drop_last()), p.0, p.1, p.1.len() as int)
    }
}

/// The brief section over the groups so far.
pub open spec fn brief_acc(gs: Seq<Group>) -> Seq<char>
    decreases gs.len(),
{
    if gs.len() == 0 {
        "## Shadowed\n"@
    } else {
        let g = gs.last();
        brief_acc(gs.drop_last()) + "- "@ + join_spec(g.2, ", "@) + " \u{2014} also defined in "@
            + g.0 + ", overridden by "@ + g.1 + "\n"@
    }
}

/// The whole brief section for the layers.
pub open spec fn brief_text(l: LayerInputs) -> Seq<char> {
    let gs = brief_groups(sorted_pairs(definitions(l)));
    if gs.len() == 0 {
        Seq::empty()
    } else {
        brief_acc(gs) + "\n"@ + "(run `am context --verbose` for full definitions, origins, and shadow chains)\n"@
    }
}

/// An exec group: losing label, winning label, names.
pub struct GroupRow {
    pub loser: String,
    pub winner: String,
    pub names: Vec<String>,
}

impl View for GroupRow {
    type V = Group;

    open spec fn view(&self) -> Group {
        (self.loser@, self.winner@, views(self.names@))
    }
}

fn group_add_exec(groups: &mut Vec<GroupRow>, name: &String, loser: String, winner: String)
    ensures
        final(groups)@.map_values(|g: GroupRow| g@) == group_add(
            old(groups)@.map_values(|g: GroupRow| g@),
            name@,
            loser@,
            winner@,
        ),
    decreases old(groups)@.len(),
{
    let n = groups.len();
    let ghost gs = old(groups)@.map_values(|g: GroupRow| g@);
    if n == 0 {
        let mut names: Vec<String> = Vec::new();
        names.push(name.clone());
        groups.push(GroupRow { loser, winner, names });
        proof {
            assert(views(groups@[0].names@) =~= seq![name@]);
            assert(groups@.map_values(|g: GroupRow| g@) =~= seq![(loser@, winner@, seq![name@])]);
        }
        return;
    }
    let same = str_equal(groups[n - 1].loser.as_str(), loser.as_str()) && str_equal(
        groups[n - 1].winner.as_str(),
        winner.as_str(),
    );
    if same {
        let mut last = groups.pop().unwrap();
        let ghost lb = last.names@;
        last.names.push(name.clone());
        proof {
            assert(views(last.names@) =~= views(lb).push(name@));
        }
        let ghost mid = groups@;
        groups.push(last);
        proof {
            assert(mid =~= old(groups)@.drop_last());
            assert(groups@.map_values(|g: GroupRow| g@) =~= gs.drop_last().push(last@));
        }
        return;
    }
    let lower = str_lt(loser.as_str(), groups[n - 1].loser.as_str()) || (str_equal(
        loser.as_str(),
        groups[n - 1].loser.as_str(),
    ) && str_lt(winner.as_str(), groups[n - 1].winner.as_str()));
    if lower {
        let last = groups.pop().unwrap();
        proof {
            assert(groups@.map_values(|g: GroupRow| g@) =~= gs.drop_last());
        }
        group_add_exec(groups, name, loser, winner);
        let ghost mid = groups@.map_values(|g: GroupRow| g@);
        groups.push(last);
        proof {
            assert(groups@.map_values(|g: GroupRow| g@) =~= mid.push(last@));
        }
    } else {
        let mut names: Vec<String> = Vec::new();
        names.push(name.clone());
        let g = GroupRow { loser, winner, names };
        proof {
            assert(views(g.names@) =~= seq![name@]);
        }
        groups.push(g);
        proof {
            assert(groups@.map_values(|g: GroupRow| g@) =~= gs.push(g@));
        }
    }
}

/// The brief `## Shadowed` section: names grouped by (losing scope,
/// winning scope), groups in that order, with a pointer to the verbose
/// view. Empty when nothing is shadowed.
pub fn render_shadow_brief(layers: &LayerInputs) -> (r: String)
    ensures
        r@ == brief_text(*layers),
{
    let defs = collect_definitions(layers);
    let entries = defs.entries();
    let ghost pairs = defs.spec_pairs();
    proof {
        lemma_sorted_pairs_of(pairs);
    }
    let mut groups: Vec<GroupRow> = Vec::new();
    let mut i: usize = 0;
    proof {
        assert(pairs.take(0) =~= Seq::<(Seq<char>, Seq<OriginSpec>)>::empty());
        assert(groups@.map_values(|g: GroupRow| g@) =~= Seq::<Group>::empty());
    }
    while i < entries.len()
        invariant
            i <= entries@.len(),
            entries_view(entries@) == pairs,
            groups@.map_values(|g: GroupRow| g@) == brief_groups(pairs.take(i as int)),
        decreases entries@.len() - i,
    {
        let name = &entries[i].0;
        let scopes = &entries[i].1.0;
        let ghost p = pairs[i as int];
        let ghost g0 = groups@.map_values(|g: GroupRow| g@);
        proof {
            assert(p == (name@, entries[i as int].1@));
        }
        let n = scopes.len();
        if n >= 2 {
            let mut k: usize = 1;
            while k < n
                invariant
                    2 <= n == scopes@.len(),
                    1 <= k <= n,
                    p.1 == scopes@.map_values(|o: OriginScope| o@),
                    p.0 == name@,
                    groups@.map_values(|g: GroupRow| g@) == group_name(g0, name@, p.1, k as int),
                decreases n - k,
            {
                let loser = scopes[k].as_from_label();
                let winner = scopes[0].as_from_label();
                group_add_exec(&mut groups, name, loser, winner);
                k = k + 1;
            }
        }
        proof {
            assert(pairs.take(i + 1).drop_last() =~= pairs.take(i as int));
            assert(pairs.take(i + 1).last() == p);
            if n < 2 {
                assert(group_name(g0, name@, p.1, p.1.len() as int) == g0);
            }
        }
        i = i + 1;
    }
    proof {
        assert(pairs.take(entries@.len() as int) =~= pairs);
    }
    let ghost gv = groups@.map_values(|g: GroupRow| g@);
    if groups.len() == 0 {
        return String::new();
    }
    let mut out = string_from("## Shadowed\n");
    let mut j: usize = 0;
    proof {
        assert(gv.take(0) =~= Seq::<Group>::empty());
    }
    while j < groups.len()
        invariant
            j <= groups@.len(),
            gv == groups@.map_values(|g: GroupRow| g@),
            out@ == brief_acc(gv.take(j as int)),
        decreases groups@.len() - j,
    {
        let g = &groups[j];
        push_str(&mut out, "- ");
        let names = join_strs(g.names.as_slice(), ", ");
        push_str(&mut out, names.as_str());
        push_str(&mut out, " \u{2014} also defined in ");
        push_str(&mut out, g.loser.as_str());
        push_str(&mut out, ", overridden by ");
        push_str(&mut out, g.winner.as_str());
        push_str(&mut out, "\n");
        proof {
            assert(gv.take(j + 1).drop_last() =~= gv.take(j as int));
            assert(gv.take(j + 1).last() == g@);
        }
        j = j + 1;
    }
    proof {
        assert(gv.take(groups@.len() as int) =~= gv);
    }
    push_str(&mut out, "\n");
    push_str(&mut out, "(run `am context --verbose` for full definitions, origins, and shadow chains)\n");
    out
}

} // verus!

//! The `## Aliases` table.
use vstd::prelude::*;

use super::escape::{escape_md, escape_md_cell};
use super::LayerInputs;
use crate::alias::AliasName;
use crate::described::Described;
use crate::precedence::{origin_label, EffectiveEntry, EntryKind, KindSpec, OriginScope, OriginSpec, ProfileLayer};
use crate::sort::{keyed_view, sort_by_key, sorted_by_key};
use crate::subcommand::{EntrySpec, SubcommandEntry};
use crate::text::{join_spec, join_strs, push_str, string_from};

verus! {

/// The last profile in the slice whose aliases define `name`.
pub open spec fn last_profile_alias(ps: Seq<ProfileLayer>, name: Seq<char>) -> Option<int>
    decreases ps.len(),
{
    if ps.len() == 0 {
        None
    } else if ps.last().aliases@.contains_key(name) {
        Some(ps.len() - 1)
    } else {
        last_profile_alias(ps.drop_last(), name)
    }
}

/// The last profile in the slice whose subcommand aliases define `key`.
pub open spec fn last_profile_sub(ps: Seq<ProfileLayer>, key: Seq<char>) -> Option<int>
    decreases ps.len(),
{
    if ps.len() == 0 {
        None
    } else if ps.last().subcommands@.contains_key(key) {
        Some(ps.len() - 1)
    } else {
        last_profile_sub(ps.drop_last(), key)
    }
}

/// The highest-precedence layer defining alias `name`: project, then
/// profiles (later in the slice first), then global.
pub open spec fn alias_origin(name: Seq<char>, l: LayerInputs) -> Option<OriginSpec> {
    if l.project_aliases@.contains_key(name) {
        Some(OriginSpec::Project)
    } else {
        match last_profile_alias(l.profile_layers@, name) {
            Some(i) => Some(OriginSpec::Profile(l.profile_layers@[i].name@)),
            None => if l.global_aliases@.contains_key(name) {
                Some(OriginSpec::Global)
            } else {
                None
            },
        }
    }
}

/// The highest-precedence layer defining subcommand key `key`.
pub open spec fn sub_origin(key: Seq<char>, l: LayerInputs) -> Option<OriginSpec> {
    if l.project_subcommands@.contains_key(key) {
        Some(OriginSpec::Project)
    } else {
        match last_profile_sub(l.profile_layers@, key) {
            Some(i) => Some(OriginSpec::Profile(l.profile_layers@[i].name@)),
            None => if l.global_subcommands@.contains_key(key) {
                Some(OriginSpec::Global)
            } else {
                None
            },
        }
    }
}

/// The view of an optional origin.
pub open spec fn opt_origin(o: Option<OriginScope>) -> Option<OriginSpec> {
    match o {
        Some(s) => Some(s@),
        None => None,
    }
}

fn last_profile_alias_exec(ps: &[ProfileLayer], key: &AliasName) -> (r: Option<usize>)
    ensures
        match last_profile_alias(ps@, key@) {
            Some(i) => r == Some(i as usize),
            None => r is None,
        },
{
    let mut j = ps.len();
    assert(ps@.take(j as int) =~= ps@);
    while j > 0
        invariant
            j <= ps@.len(),
            last_profile_alias(ps@, key@) == last_profile_alias(ps@.take(j as int), key@),
        decreases j,
    {
        proof {
            assert(ps@.take(j as int).drop_last() =~= ps@.take(j - 1));
        }
        if ps[j - 1].aliases.contains_key(key) {
            return Some(j - 1);
        }
        j = j - 1;
    }
    None
}

fn last_profile_sub_exec(ps: &[ProfileLayer], key: &str) -> (r: Option<usize>)
    ensures
        match last_profile_sub(ps@, key@) {
            Some(i) => r == Some(i as usize),
            None => r is None,
        },
{
    let mut j = ps.len();
    assert(ps@.take(j as int) =~= ps@);
    while j > 0
        invariant
            j <= ps@.len(),
            last_profile_sub(ps@, key@) == last_profile_sub(ps@.take(j as int), key@),
        decreases j,
    {
        proof {
            assert(ps@.take(j as int).drop_last() =~= ps@.take(j - 1));
        }
        if ps[j - 1].subcommands.contains_key(key) {
            return Some(j - 1);
        }
        j = j - 1;
    }
    None
}

proof fn lemma_last_profile_alias_bound(ps: Seq<ProfileLayer>, name: Seq<char>)
    ensures
        last_profile_alias(ps, name) matches Some(i) ==> 0 <= i < ps.len() && ps[i].aliases@.contains_key(name),
    decreases ps.len(),
{
    if ps.len() > 0 && !ps.last().aliases@.contains_key(name) {
        lemma_last_profile_alias_bound(ps.drop_last(), name);
    }
}

proof fn lemma_last_profile_sub_bound(ps: Seq<ProfileLayer>, key: Seq<char>)
    ensures
        last_profile_sub(ps, key) matches Some(i) ==> 0 <= i < ps.len() && ps[i].subcommands@.contains_key(key),
    decreases ps.len(),
{
    if ps.len() > 0 && !ps.last().subcommands@.contains_key(key) {
        lemma_last_profile_sub_bound(ps.drop_last(), key);
    }
}

/// The highest-precedence layer defining alias `name`.
pub fn lookup_origin(name: &str, layers: &LayerInputs) -> (r: Option<OriginScope>)
    ensures
        opt_origin(r) == alias_origin(name@, *layers),
{
    let key = AliasName::new(name);
    if layers.project_aliases.contains_key(&key) {
        return Some(OriginScope::Project);
    }
    proof {
        lemma_last_profile_alias_bound(layers.profile_layers@, name@);
    }
    match last_profile_alias_exec(layers.profile_layers, &key) {
        Some(i) => Some(OriginScope::Profile(layers.profile_layers[i].name.clone())),
        None => if layers.global_aliases.contains_key(&key) {
            Some(OriginScope::Global)
        } else {
            None
        },
    }
}

/// The highest-precedence layer defining subcommand `program:short_key`.
pub fn lookup_subcommand_origin(program: &str, short_key: &str, layers: &LayerInputs) -> (r:
    Option<OriginScope>)
    ensures
        opt_origin(r) == sub_origin(program@ + ":"@ + short_key@, *layers),
{
    let mut key = string_from(program);
    push_str(&mut key, ":");
    push_str(&mut key, short_key);
    if layers.project_subcommands.contains_key(key.as_str()) {
        return Some(OriginScope::Project);
    }
    proof {
        lemma_last_profile_sub_bound(layers.profile_layers@, key@);
    }
    match last_profile_sub_exec(layers.profile_layers, key.as_str()) {
        Some(i) => Some(OriginScope::Profile(layers.profile_layers[i].name.clone())),
        None => if layers.global_subcommands.contains_key(key.as_str()) {
            Some(OriginScope::Global)
        } else {
            None
        },
    }
}

/// A table row: name, then expansion, origin label and description.
pub type RowSpec = (Seq<char>, (Seq<char>, Seq<char>, Option<Seq<char>>));

/// The row name of a subcommand entry: program and short words.
pub open spec fn sub_row_name(program: Seq<char>, e: EntrySpec) -> Seq<char> {
    program + " "@ + join_spec(e.shorts, " "@)
}

/// The subcommand key of an entry: program and short words joined by `:`.
pub open spec fn sub_row_key(program: Seq<char>, e: EntrySpec) -> Seq<char> {
    program + ":"@ + join_spec(e.shorts, ":"@)
}

/// The rows of a subcommand wrapper, one per entry.
pub open spec fn wrapper_rows(program: Seq<char>, es: Seq<EntrySpec>, l: LayerInputs) -> Seq<RowSpec>
    decreases es.len(),
{
    if es.len() == 0 {
        Seq::empty()
    } else {
        let e = es.last();
        wrapper_rows(program, es.drop_last(), l).push(
            (
                sub_row_name(program, e),
                (
                    program + " "@ + join_spec(e.longs, " "@),
                    origin_label(sub_origin(sub_row_key(program, e), l)->0),
                    e.description,
                ),
            ),
        )
    }
}

/// The rows of one effective entry; tracking-only keys have none.
pub open spec fn entry_rows(e: (Seq<char>, KindSpec), l: LayerInputs) -> Seq<RowSpec> {
    match e.1 {
        KindSpec::Alias(a) => seq![
            (e.0, (a.command, origin_label(alias_origin(e.0, l)->0), a.description)),
        ],
        KindSpec::Wrapper(program, es) => wrapper_rows(program, es, l),
        KindSpec::Key(_) => Seq::empty(),
    }
}

/// The rows of all effective entries, in entry order.
pub open spec fn all_rows(es: Seq<(Seq<char>, KindSpec)>, l: LayerInputs) -> Seq<RowSpec>
    decreases es.len(),
{
    if es.len() == 0 {
        Seq::empty()
    } else {
        all_rows(es.drop_last(), l) + entry_rows(es.last(), l)
    }
}

/// Every alias entry and every subcommand entry of a wrapper is defined in
/// some layer.
pub open spec fn all_resolvable(es: Seq<(Seq<char>, KindSpec)>, l: LayerInputs) -> bool {
    forall|i: int|
        0 <= i < es.len() ==> match (#[trigger] es[i]).1 {
            KindSpec::Alias(_) => alias_origin(es[i].0, l) is Some,
            KindSpec::Wrapper(program, subs) => forall|j: int|
                0 <= j < subs.len() ==> sub_origin(sub_row_key(program, #[trigger] subs[j]), l) is Some,
            KindSpec::Key(_) => true,
        }
}

/// Does some row carry a description?
pub open spec fn any_description(rows: Seq<RowSpec>) -> bool {
    exists|i: int| 0 <= i < rows.len() && (#[trigger] rows[i]).1.2 is Some
}

/// The table over the rows so far, with or without the description column.
pub open spec fn aliases_table_acc(rows: Seq<RowSpec>, desc: bool) -> Seq<char>
    decreases rows.len(),
{
    if rows.len() == 0 {
        if desc {
            "## Aliases\n\n"@ + "| name | expands to | from | description |\n"@
                + "|------|------------|------|-------------|\n"@
        } else {
            "## Aliases\n\n"@ + "| name | expands to | from |\n"@ + "|------|------------|------|\n"@
        }
    } else {
        let r = rows.last();
        if desc {
            aliases_table_acc(rows.drop_last(), desc) + "| "@ + escape_md(r.0) + " | "@ + escape_md(
                r.1.0,
            ) + " | "@ + escape_md(r.1.1) + " | "@ + escape_md(
                match r.1.2 {
                    Some(d) => d,
                    None => ""@,
                },
            ) + " |\n"@
        } else {
            aliases_table_acc(rows.drop_last(), desc) + "| "@ + escape_md(r.0) + " | "@ + escape_md(
                r.1.0,
            ) + " | "@ + escape_md(r.1.1) + " |\n"@
        }
    }
}

/// The whole `## Aliases` section for an effective set.
pub open spec fn aliases_table(es: Seq<(Seq<char>, KindSpec)>, l: LayerInputs) -> Seq<char> {
    let rows = sorted_by_key(all_rows(es, l));
    aliases_table_acc(rows, any_description(all_rows(es, l)))
}

/// Row payload: expansion, origin label, description.
pub struct RowData {
    pub expansion: String,
    pub from: String,
    pub description: Option<String>,
}

impl View for RowData {
    type V = (Seq<char>, Seq<char>, Option<Seq<char>>);

    open spec fn view(&self) -> (Seq<char>, Seq<char>, Option<Seq<char>>) {
        (self.expansion@, self.from@, crate::alias::opt_view(self.description))
    }
}

type Row = (String, RowData);

fn wrapper_rows_exec(
    rows: &mut Vec<Row>,
    program: &String,
    entries: &Vec<SubcommandEntry>,
    layers: &LayerInputs,
)
    requires
        forall|j: int|
            0 <= j < entries@.len() ==> sub_origin(
                sub_row_key(program@, #[trigger] entries@[j]@),
                *layers,
            ) is Some,
    ensures
        keyed_view(final(rows)@) == keyed_view(old(rows)@) + wrapper_rows(
            program@,
            entries@.map_values(|e: SubcommandEntry| e@),
            *layers,
        ),
{
    let ghost es = entries@.map_values(|e: SubcommandEntry| e@);
    let ghost start = keyed_view(rows@);
    let mut i: usize = 0;
    proof {
        assert(start + wrapper_rows(program@, es.take(0), *layers) =~= start);
    }
    while i < entries.len()
        invariant
            i <= entries@.len(),
            es == entries@.map_values(|e: SubcommandEntry| e@),
            forall|j: int|
                0 <= j < entries@.len() ==> sub_origin(
                    sub_row_key(program@, #[trigger] entries@[j]@),
                    *layers,
                ) is Some,
            keyed_view(rows@) == start + wrapper_rows(program@, es.take(i as int), *layers),
        decreases entries@.len() - i,
    {
        let sub = &entries[i];
        let mut name = program.clone();
        push_str(&mut name, " ");
        let shorts = join_strs(sub.short_subcommands.as_slice(), " ");
        push_str(&mut name, shorts.as_str());
        let mut expansion = program.clone();
        push_str(&mut expansion, " ");
        let longs = join_strs(sub.long_subcommands.as_slice(), " ");
        push_str(&mut expansion, longs.as_str());
        let short_key = join_strs(sub.short_subcommands.as_slice(), ":");
        let origin = lookup_subcommand_origin(program.as_str(), short_key.as_str(), layers);
        proof {
            assert(sub@ == es[i as int]);
            assert(program@ + ":"@ + short_key@ == sub_row_key(program@, sub@));
        }
        let from = match origin {
            Some(o) => o.as_from_label(),
            None => {
                assert(false);
                String::new()
            },
        };
        let description = match &sub.description {
            Some(d) => Some(d.clone()),
            None => None,
        };
        let row: Row = (name, RowData { expansion, from, description });
        let ghost before = rows@;
        rows.push(row);
        proof {
            assert(rows@ =~= before.push(row));
            assert(keyed_view(rows@) =~= keyed_view(before).push((row.0@, row.1@)));
            assert(es.take(i + 1).drop_last() =~= es.take(i as int));
            assert(es.take(i + 1).last() == sub@);
            assert(keyed_view(rows@) =~= start + wrapper_rows(program@, es.take(i + 1), *layers));
        }
        i = i + 1;
    }
    proof {
        assert(es.take(entries@.len() as int) =~= es);
    }
}

/// The `## Aliases` table: one row per alias and per subcommand entry of a
/// wrapper, with its expansion, the layer it comes from and, when any row
/// has one, a description column; rows sorted by name, tracking-only keys
/// left out.
pub fn render_aliases_table(effective: &[EffectiveEntry], layers: &LayerInputs) -> (r: String)
    requires
        all_resolvable(effective@.map_values(|e: EffectiveEntry| e@), *layers),
    ensures
        r@ == aliases_table(effective@.map_values(|e: EffectiveEntry| e@), *layers),
{
    let ghost es = effective@.map_values(|e: EffectiveEntry| e@);
    let mut rows: Vec<Row> = Vec::new();
    let mut i: usize = 0;
    proof {
        assert(keyed_view(rows@) =~= all_rows(es.take(0), *layers));
    }
    while i < effective.len()
        invariant
            i <= effective@.len(),
            es == effective@.map_values(|e: EffectiveEntry| e@),
            all_resolvable(es, *layers),
            keyed_view(rows@) == all_rows(es.take(i as int), *layers),
        decreases effective@.len() - i,
    {
        let e = &effective[i];
        let ghost before = keyed_view(rows@);
        proof {
            assert(es[i as int] == e@);
            assert(es.take(i + 1).drop_last() =~= es.take(i as int));
            assert(es.take(i + 1).last() == e@);
        }
        match &e.kind {
            EntryKind::Alias(alias) => {
                let origin = lookup_origin(e.name.as_str(), layers);
                let from = match origin {
                    Some(o) => o.as_from_label(),
                    None => {
                        assert(false);
                        String::new()
                    },
                };
                let description = match alias.description() {
                    Some(d) => Some(string_from(d)),
                    None => None,
                };
                let row: Row = (e.name.clone(), RowData { expansion: string_from(alias.command()), from, description });
                let ghost rb = rows@;
                rows.push(row);
                proof {
                    assert(rows@ =~= rb.push(row));
                    assert(keyed_view(rows@) =~= keyed_view(rb).push((row.0@, row.1@)));
                    assert(keyed_view(rows@) =~= all_rows(es.take(i + 1), *layers));
                }
            },
            EntryKind::SubcommandWrapper { program, entries, .. } => {
                proof {
                    let subs = entries@.map_values(|x: SubcommandEntry| x@);
                    assert(e@.1 == KindSpec::Wrapper(program@, subs));
                    assert(es[i as int].1 == KindSpec::Wrapper(program@, subs));
                    let ai = es[i as int];
                    assert(match ai.1 {
                        KindSpec::Alias(_) => alias_origin(ai.0, *layers) is Some,
                        KindSpec::Wrapper(p, ss) => forall|j: int|
                            0 <= j < ss.len() ==> sub_origin(sub_row_key(p, #[trigger] ss[j]), *layers) is Some,
                        KindSpec::Key(_) => true,
                    });
                    assert(forall|j: int|
                        0 <= j < subs.len() ==> sub_origin(sub_row_key(program@, #[trigger] subs[j]), *layers) is Some);
                    assert forall|j: int| 0 <= j < entries@.len() implies sub_origin(
                        sub_row_key(program@, #[trigger] entries@[j]@),
                        *layers,
                    ) is Some by {
                        assert(subs[j] == entries@[j]@);
                        assert(sub_origin(sub_row_key(program@, subs[j]), *layers) is Some);
                    }
                }
                wrapper_rows_exec(&mut rows, program, entries, layers);
                proof {
                    assert(keyed_view(rows@) =~= all_rows(es.take(i + 1), *layers));
                }
            },
            EntryKind::SubcommandKey { .. } => {
                proof {
                    assert(keyed_view(rows@) =~= all_rows(es.take(i + 1), *layers));
                }
            },
        }
        i = i + 1;
    }
    proof {
        assert(es.take(effective@.len() as int) =~= es);
    }
    let ghost unsorted = keyed_view(rows@);
    let mut any = false;
    let mut k: usize = 0;
    while k < rows.len()
        invariant
            k <= rows@.len(),
            unsorted == keyed_view(rows@),
            any == exists|j: int| 0 <= j < k && (#[trigger] unsorted[j]).1.2 is Some,
        decreases rows@.len() - k,
    {
        if rows[k].1.description.is_some() {
            any = true;
            assert(unsorted[k as int].1.2 is Some);
        }
        k = k + 1;
    }
    let sorted = sort_by_key(rows);
    let ghost sv = keyed_view(sorted@);
    let mut out = string_from("## Aliases\n\n");
    if any {
        push_str(&mut out, "| name | expands to | from | description |\n");
        push_str(&mut out, "|------|------------|------|-------------|\n");
    } else {
        push_str(&mut out, "| name | expands to | from |\n");
        push_str(&mut out, "|------|------------|------|\n");
    }
    let mut j: usize = 0;
    proof {
        assert(sv.take(0) =~= Seq::<RowSpec>::empty());
    }
    while j < sorted.len()
        invariant
            j <= sorted@.len(),
            sv == keyed_view(sorted@),
            out@ == aliases_table_acc(sv.take(j as int), any),
        decreases sorted@.len() - j,
    {
        let row = &sorted[j];
        push_str(&mut out, "| ");
        let a = escape_md_cell(row.0.as_str());
        push_str(&mut out, a.as_str());
        push_str(&mut out, " | ");
        let b = escape_md_cell(row.1.expansion.as_str());
        push_str(&mut out, b.as_str());
        push_str(&mut out, " | ");
        let c = escape_md_cell(row.1.from.as_str());
        push_str(&mut out, c.as_str());
        if any {
            push_str(&mut out, " | ");
            let d = match &row.1.description {
                Some(d) => escape_md_cell(d.as_str()),
                None => escape_md_cell(""),
            };
            push_str(&mut out, d.as_str());
        }
        push_str(&mut out, " |\n");
        proof {
            assert(sv.take(j + 1).drop_last() =~= sv.take(j as int));
            assert(sv.take(j + 1).last() == sv[j as int]);
            assert(sv[j as int] == (row.0@, row.1@));
        }
        j = j + 1;
    }
    proof {
        assert(sv.take(sorted@.len() as int) =~= sv);
    }
    out
}

} // verus!

//! The `am context` snapshot: markdown describing the active aliases for
//! coding assistants, one renderer per section.
use vstd::prelude::*;

pub mod aliases;
pub mod escape;
pub mod invalid;
pub mod preamble;
pub mod shadows;
pub mod trust_notice;
pub mod variables;

pub use aliases::render_aliases_table;
pub use invalid::render_invalid;
pub use preamble::{render_preamble, ChainLayer, PrecedenceChain};
pub use shadows::{render_shadow_brief, render_shadow_verbose};
pub use trust_notice::{render_project_trust_notice, ProjectTrustNotice, ProjectTrustReason};
pub use variables::render_variables;

use crate::alias::AliasSet;
use crate::precedence::{EffectiveEntry, EntryKind, KindSpec, ProfileLayer, ResolveOutcome};
use crate::sort::{keyed_view, sort_by_key, sorted_by_key};
use crate::subcommand::EntrySpec;
use crate::text::{join_spec, join_strs, push_str, string_from};
use aliases::{aliases_table, all_resolvable};
use invalid::invalid_text;
use preamble::preamble_text;
use shadows::{brief_text, shadows_resolvable, verbose_text};
use trust_notice::notice_text;
use variables::variables_text;
use crate::subcommand::SubcommandSet;
use crate::vars::VarSet;

verus! {

/// The layered inputs that fed the resolution, kept for origin lookups.
#[derive(Debug, Clone, Copy)]
pub struct LayerInputs<'a> {
    pub global_aliases: &'a AliasSet,
    pub global_subcommands: &'a SubcommandSet,
    pub global_vars: &'a VarSet,
    pub profile_layers: &'a [ProfileLayer],
    pub project_aliases: &'a AliasSet,
    pub project_subcommands: &'a SubcommandSet,
    pub project_vars: &'a VarSet,
}

/// Rendering options.
#[derive(Debug, Clone, Copy)]
pub struct RenderOptions {
    pub verbose: bool,
}

/// The entries the snapshot shows: added, then unchanged.
pub open spec fn effective_of(o: ResolveOutcome) -> Seq<(Seq<char>, KindSpec)> {
    (o.diff.added@ + o.diff.unchanged@).map_values(|e: EffectiveEntry| e@)
}

/// The user-facing names of one entry: an alias's name, or program and
/// short words for each subcommand of a wrapper.
pub open spec fn entry_names(e: (Seq<char>, KindSpec)) -> Seq<Seq<char>> {
    match e.1 {
        KindSpec::Alias(_) => seq![e.0],
        KindSpec::Wrapper(program, es) => es.map_values(
            |x: EntrySpec| program + " "@ + join_spec(x.shorts, " "@),
        ),
        KindSpec::Key(_) => Seq::empty(),
    }
}

/// The user-facing names of all entries, in entry order.
pub open spec fn all_names(es: Seq<(Seq<char>, KindSpec)>) -> Seq<Seq<char>>
    decreases es.len(),
{
    if es.len() == 0 {
        Seq::empty()
    } else {
        all_names(es.drop_last()) + entry_names(es.last())
    }
}

/// The names, sorted.
pub open spec fn sorted_names(names: Seq<Seq<char>>) -> Seq<Seq<char>> {
    sorted_by_key(names.map_values(|n: Seq<char>| (n, ()))).map_values(|p: (Seq<char>, ())| p.0)
}

/// A section followed by a blank line, or nothing when the section is empty.
pub open spec fn section(x: Seq<char>) -> Seq<char> {
    if x.len() == 0 {
        Seq::empty()
    } else {
        x + "\n"@
    }
}

/// The whole snapshot.
pub open spec fn render_text(
    cwd: Seq<char>,
    o: ResolveOutcome,
    l: LayerInputs,
    notice: Option<trust_notice::ProjectTrustNotice>,
    verbose: bool,
) -> Seq<char> {
    preamble_text(cwd, notice is Some) + "\n"@ + section(
        notice_text(notice, sorted_names(all_names(effective_of(o)))),
    ) + aliases_table(effective_of(o), l) + "\n"@ + section(variables_text(l)) + section(
        if verbose {
            verbose_text(l)
        } else {
            brief_text(l)
        },
    ) + (if verbose {
        section(invalid_text(o.diagnostics@))
    } else {
        Seq::empty()
    })
}

fn section_of(x: String) -> (r: String)
    ensures
        r@ == section(x@),
{
    if x.unicode_len() == 0 {
        x
    } else {
        let mut s = x;
        push_str(&mut s, "\n");
        s
    }
}

fn collect_names(effective: &Vec<EffectiveEntry>) -> (r: Vec<(String, ())>)
    ensures
        keyed_view(r@) == all_names(effective@.map_values(|e: EffectiveEntry| e@)).map_values(
            |n: Seq<char>| (n, ()),
        ),
{
    let ghost es = effective@.map_values(|e: EffectiveEntry| e@);
    let mut names: Vec<(String, ())> = Vec::new();
    let mut i: usize = 0;
    proof {
        assert(keyed_view(names@) =~= all_names(es.take(0)).map_values(|n: Seq<char>| (n, ())));
    }
    while i < effective.len()
        invariant
            i <= effective@.len(),
            es == effective@.map_values(|e: EffectiveEntry| e@),
            keyed_view(names@) == all_names(es.take(i as int)).map_values(|n: Seq<char>| (n, ())),
        decreases effective@.len() - i,
    {
        let e = &effective[i];
        let ghost before = keyed_view(names@);
        proof {
            assert(es.take(i + 1).drop_last() =~= es.take(i as int));
            assert(es.take(i + 1).last() == e@);
        }
        match &e.kind {
            EntryKind::Alias(_) => {
                let ghost nb = names@;
                let item = (e.name.clone(), ());
                names.push(item);
                proof {
                    assert(names@ =~= nb.push(item));
                    assert(keyed_view(names@) =~= before.push((e.name@, ())));
                    assert(keyed_view(names@) =~= all_names(es.take(i + 1)).map_values(|n: Seq<char>| (n, ())));
                }
            },
            EntryKind::SubcommandWrapper { program, entries, .. } => {
                let ghost subs = entries@.map_values(|x: crate::subcommand::SubcommandEntry| x@);
                let mut j: usize = 0;
                proof {
                    assert(subs.take(0).map_values(|x: EntrySpec| program@ + " "@ + join_spec(x.shorts, " "@)) =~= Seq::<Seq<char>>::empty());
                    assert(keyed_view(names@) =~= before + subs.take(0).map_values(|x: EntrySpec| program@ + " "@ + join_spec(x.shorts, " "@)).map_values(|n: Seq<char>| (n, ())));
                }
                while j < entries.len()
                    invariant
                        j <= entries@.len(),
                        subs == entries@.map_values(|x: crate::subcommand::SubcommandEntry| x@),
                        keyed_view(names@) == before + subs.take(j as int).map_values(
                            |x: EntrySpec| program@ + " "@ + join_spec(x.shorts, " "@),
                        ).map_values(|n: Seq<char>| (n, ())),
                    decreases entries@.len() - j,
                {
                    let mut n = program.clone();
                    push_str(&mut n, " ");
                    let shorts = join_strs(entries[j].short_subcommands.as_slice(), " ");
                    push_str(&mut n, shorts.as_str());
                    let ghost nb = names@;
                    let item = (n, ());
                    names.push(item);
                    proof {
                        assert(subs[j as int] == entries@[j as int]@);
                        assert(names@ =~= nb.push(item));
                        assert(keyed_view(names@) =~= keyed_view(nb).push((n@, ())));
                        assert(subs.take(j + 1) =~= subs.take(j as int).push(subs[j as int]));
                        assert(n@ == program@ + " "@ + join_spec(subs[j as int].shorts, " "@));
                        assert(subs.take(j + 1).map_values(
                            |x: EntrySpec| program@ + " "@ + join_spec(x.shorts, " "@),
                        ).map_values(|n: Seq<char>| (n, ())) =~= subs.take(j as int).map_values(
                            |x: EntrySpec| program@ + " "@ + join_spec(x.shorts, " "@),
                        ).map_values(|n: Seq<char>| (n, ())).push((n@, ())));
                        assert(keyed_view(names@) =~= before + subs.take(j + 1).map_values(
                            |x: EntrySpec| program@ + " "@ + join_spec(x.shorts, " "@),
                        ).map_values(|n: Seq<char>| (n, ())));
                    }
                    j = j + 1;
                }
                proof {
                    assert(subs.take(entries@.len() as int) =~= subs);
                    assert(keyed_view(names@) =~= all_names(es.take(i + 1)).map_values(|n: Seq<char>| (n, ())));
                }
            },
            EntryKind::SubcommandKey { .. } => {
                proof {
                    assert(keyed_view(names@) =~= all_names(es.take(i + 1)).map_values(|n: Seq<char>| (n, ())));
                }
            },
        }
        i = i + 1;
    }
    proof {
        assert(es.take(effective@.len() as int) =~= es);
    }
    names
}

/// The `am context` snapshot, section by section: preamble, the notice for
/// an unloaded project file, aliases, variables, shadowed names (brief or
/// verbose), and in verbose mode the invalid entries.
pub fn render(
    cwd: &str,
    chain: &PrecedenceChain,
    outcome: &ResolveOutcome,
    layers: &LayerInputs,
    project_trust_notice: Option<&ProjectTrustNotice>,
    opts: RenderOptions,
) -> (r: String)
    requires
        all_resolvable(effective_of(*outcome), *layers),
        opts.verbose ==> shadows_resolvable(*layers),
    ensures
        r@ == render_text(
            cwd@,
            *outcome,
            *layers,
            match project_trust_notice {
                Some(n) => Some(*n),
                None => None,
            },
            opts.verbose,
        ),
{
    let mut out = render_preamble(cwd, chain, project_trust_notice);
    push_str(&mut out, "\n");
    let mut effective: Vec<EffectiveEntry> = Vec::new();
    let ghost all = outcome.diff.added@ + outcome.diff.unchanged@;
    let mut i: usize = 0;
    while i < outcome.diff.added.len()
        invariant
            i <= outcome.diff.added@.len(),
            all == outcome.diff.added@ + outcome.diff.unchanged@,
            effective@.map_values(|e: EffectiveEntry| e@) == all.take(i as int).map_values(
                |e: EffectiveEntry| e@,
            ),
        decreases outcome.diff.added@.len() - i,
    {
        let ghost before = effective@;
        let e = outcome.diff.added[i].dup();
        effective.push(e);
        proof {
            assert(all[i as int] == outcome.diff.added@[i as int]);
            assert(effective@ =~= before.push(e));
            assert(effective@.map_values(|e: EffectiveEntry| e@) =~= before.map_values(|e: EffectiveEntry| e@).push(e@));
            assert(all.take(i + 1) =~= all.take(i as int).push(all[i as int]));
            assert(all.take(i + 1).map_values(|e: EffectiveEntry| e@) =~= all.take(i as int).map_values(|e: EffectiveEntry| e@).push(all[i as int]@));
            assert(effective@.map_values(|e: EffectiveEntry| e@) =~= all.take(i + 1).map_values(
                |e: EffectiveEntry| e@,
            ));
        }
        i = i + 1;
    }
    let na = outcome.diff.added.len();
    let mut j: usize = 0;
    while j < outcome.diff.unchanged.len()
        invariant
            j <= outcome.diff.unchanged@.len(),
            na == outcome.diff.added@.len(),
            all == outcome.diff.added@ + outcome.diff.unchanged@,
            effective@.map_values(|e: EffectiveEntry| e@) == all.take(na + j).map_values(
                |e: EffectiveEntry| e@,
            ),
        decreases outcome.diff.unchanged@.len() - j,
    {
        let ghost before = effective@;
        let e = outcome.diff.unchanged[j].dup();
        effective.push(e);
        proof {
            assert(all[na + j] == outcome.diff.unchanged@[j as int]);
            assert(effective@ =~= before.push(e));
            assert(effective@.map_values(|e: EffectiveEntry| e@) =~= before.map_values(|e: EffectiveEntry| e@).push(e@));
            assert(all.take(na + j + 1) =~= all.take(na + j).push(all[na + j]));
            assert(all.take(na + j + 1).map_values(|e: EffectiveEntry| e@) =~= all.take(na + j).map_values(|e: EffectiveEntry| e@).push(all[na + j]@));
            assert(effective@.map_values(|e: EffectiveEntry| e@) =~= all.take(na + j + 1).map_values(
                |e: EffectiveEntry| e@,
            ));
        }
        j = j + 1;
    }
    proof {
        assert(all.take(all.len() as int) =~= all);
        assert(effective@.map_values(|e: EffectiveEntry| e@) == effective_of(*outcome));
    }
    let names = collect_names(&effective);
    let sorted = sort_by_key(names);
    let mut name_refs: Vec<&str> = Vec::new();
    let mut k: usize = 0;
    while k < sorted.len()
        invariant
            k <= sorted@.len(),
            name_refs@.map_values(|s: &str| s@) == keyed_view(sorted@).take(k as int).map_values(
                |p: (Seq<char>, ())| p.0,
            ),
        decreases sorted@.len() - k,
    {
        let ghost before = name_refs@;
        let s = sorted[k].0.as_str();
        name_refs.push(s);
        proof {
            assert(name_refs@ =~= before.push(s));
            assert(name_refs@.map_values(|s: &str| s@) =~= before.map_values(|s: &str| s@).push(s@));
            assert(keyed_view(sorted@).take(k + 1) =~= keyed_view(sorted@).take(k as int).push(
                keyed_view(sorted@)[k as int],
            ));
            assert(keyed_view(sorted@)[k as int].0 == s@);
            assert(keyed_view(sorted@).take(k + 1).map_values(|p: (Seq<char>, ())| p.0) =~= keyed_view(sorted@).take(k as int).map_values(|p: (Seq<char>, ())| p.0).push(s@));
            assert(name_refs@.map_values(|s: &str| s@) =~= keyed_view(sorted@).take(k + 1).map_values(
                |p: (Seq<char>, ())| p.0,
            ));
        }
        k = k + 1;
    }
    proof {
        assert(keyed_view(sorted@).take(sorted@.len() as int) =~= keyed_view(sorted@));
    }
    let notice = render_project_trust_notice(project_trust_notice, name_refs.as_slice());
    let notice_part = section_of(notice);
    push_str(&mut out, notice_part.as_str());
    let table = render_aliases_table(effective.as_slice(), layers);
    push_str(&mut out, table.as_str());
    push_str(&mut out, "\n");
    let vars = section_of(render_variables(layers));
    push_str(&mut out, vars.as_str());
    let shadow = if opts.verbose {
        render_shadow_verbose(layers)
    } else {
        render_shadow_brief(layers)
    };
    let shadow_part = section_of(shadow);
    push_str(&mut out, shadow_part.as_str());
    if opts.verbose {
        let invalid = section_of(render_invalid(outcome.diagnostics.as_slice()));
        push_str(&mut out, invalid.as_str());
    } else {
        push_str(&mut out, "");
        proof {
            reveal_strlit("");
            assert(out@ =~= out@ + ""@);
        }
    }
    out
}

} // verus!

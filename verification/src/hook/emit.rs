//! The shell code a hook run emits: unloading, messages, definitions and
//! the tracking variables.
use vstd::prelude::*;

use crate::alias::{AliasSet, AliasSpec};
use crate::described::opt_str_view;
use crate::env_vars::{AM_PROJECT_ALIASES, AM_PROJECT_PATH};
use crate::hook::{
    added_keys, changed_keys, current_tracking, diff_tracking, parse_prev_aliases, prev_map, program_groups,
    removed_keys, tracking, HookDiff, PrevHash,
};
use crate::project::{ProjectAliases, TrustStatus};
use crate::shell::{alias_line, echo_line, set_env_line, unalias_line, unset_env_line, wrapper_text, Shell};
use crate::strmap::{entries_view, lemma_sorted_pairs_of, pair_keys, pairs_map, sorted_pairs, StrMap};
use crate::subcommand::{grouped, opt_str_equal, EntrySpec, SubSpec, SubcommandGroup, SubcommandSet};
use crate::text::{contains_char, decimal, decimal_string, join_spec, join_strs, push_str, string_from, views};

verus! {

/// The names without a `:` (those the shell knows as aliases or
/// functions), in order.
pub open spec fn shell_level(names: Seq<Seq<char>>) -> Seq<Seq<char>>
    decreases names.len(),
{
    if names.len() == 0 {
        Seq::empty()
    } else {
        shell_level(names.drop_last()) + (if names.last().contains(':') {
            Seq::empty()
        } else {
            seq![names.last()]
        })
    }
}

/// The lines removing each shell-level name, in order.
pub open spec fn unalias_lines(sh: Shell, names: Seq<Seq<char>>) -> Seq<Seq<char>> {
    shell_level(names).map_values(|n: Seq<char>| unalias_line(sh, n))
}

/// Each message as an echo line.
pub open spec fn echo_lines(sh: Shell, msgs: Seq<Seq<char>>) -> Seq<Seq<char>> {
    msgs.map_values(|m: Seq<char>| echo_line(sh, m))
}

proof fn lemma_views_take_step(v: Seq<String>, i: int)
    requires
        0 <= i < v.len(),
    ensures
        views(v.take(i + 1)).drop_last() == views(v.take(i)),
        views(v.take(i + 1)).last() == v[i]@,
        views(v.take(i + 1)).len() == i + 1,
{
    assert(views(v.take(i + 1)).drop_last() =~= views(v.take(i)));
}

/// The shell-level names of a list, in order.
pub fn shell_level_names(names: &[String]) -> (r: Vec<String>)
    ensures
        views(r@) == shell_level(views(names@)),
{
    let mut r: Vec<String> = Vec::new();
    let mut i: usize = 0;
    while i < names.len()
        invariant
            i <= names@.len(),
            views(r@) == shell_level(views(names@.take(i as int))),
        decreases names@.len() - i,
    {
        proof {
            lemma_views_take_step(names@, i as int);
        }
        if !contains_char(names[i].as_str(), ':') {
            let ghost before = r@;
            let n = names[i].clone();
            r.push(n);
            proof {
                assert(views(r@) =~= views(before).push(n@));
            }
        }
        i = i + 1;
    }
    proof {
        assert(names@.take(names@.len() as int) =~= names@);
    }
    r
}

/// Appends the lines removing each shell-level name.
fn push_unaliases(lines: &mut Vec<String>, sh: Shell, names: &[String])
    ensures
        views(final(lines)@) == views(old(lines)@) + unalias_lines(sh, views(names@)),
{
    let kept = shell_level_names(names);
    let ghost start = views(lines@);
    let ghost f = |n: Seq<char>| unalias_line(sh, n);
    let mut i: usize = 0;
    while i < kept.len()
        invariant
            i <= kept@.len(),
            views(lines@) == start + views(kept@.take(i as int)).map_values(f),
            f == (|n: Seq<char>| unalias_line(sh, n)),
        decreases kept@.len() - i,
    {
        proof {
            lemma_views_take_step(kept@, i as int);
        }
        let ghost before = views(lines@);
        let l = sh.unalias(kept[i].as_str());
        lines.push(l);
        proof {
            assert(views(kept@.take(i + 1)).map_values(f) =~= views(kept@.take(i as int)).map_values(f).push(
                f(kept@[i as int]@),
            ));
            assert(views(lines@) =~= before.push(l@));
        }
        i = i + 1;
    }
    proof {
        assert(kept@.take(kept@.len() as int) =~= kept@);
    }
}

/// Appends each message as an echo line.
fn push_echoes(lines: &mut Vec<String>, sh: Shell, msgs: &[String])
    ensures
        views(final(lines)@) == views(old(lines)@) + echo_lines(sh, views(msgs@)),
{
    let ghost start = views(lines@);
    let ghost f = |m: Seq<char>| echo_line(sh, m);
    let mut i: usize = 0;
    while i < msgs.len()
        invariant
            i <= msgs@.len(),
            views(lines@) == start + views(msgs@.take(i as int)).map_values(f),
            f == (|m: Seq<char>| echo_line(sh, m)),
        decreases msgs@.len() - i,
    {
        proof {
            lemma_views_take_step(msgs@, i as int);
        }
        let ghost before = views(lines@);
        let l = sh.echo(msgs[i].as_str());
        lines.push(l);
        proof {
            assert(views(msgs@.take(i + 1)).map_values(f) =~= views(msgs@.take(i as int)).map_values(f).push(
                f(msgs@[i as int]@),
            ));
            assert(views(lines@) =~= before.push(l@));
        }
        i = i + 1;
    }
    proof {
        assert(msgs@.take(msgs@.len() as int) =~= msgs@);
    }
}

/// The message shown when a project's aliases are loaded: a heading, then
/// one line per alias and per subcommand alias.
pub open spec fn load_message(aliases: Seq<(Seq<char>, AliasSpec)>, subs: Seq<(Seq<char>, SubSpec)>) -> Seq<
    Seq<char>,
> {
    seq!["am: loaded .aliases"@] + aliases.map_values(
        |p: (Seq<char>, AliasSpec)| "  "@ + p.0 + " = "@ + p.1.command,
    ) + subs.map_values(|p: (Seq<char>, SubSpec)| "  "@ + p.0 + " = "@ + join_spec(p.1.expansions, " "@))
}

/// The lines of the load message for a project's aliases.
pub fn render_load_message(aliases: &AliasSet, subs: &SubcommandSet) -> (r: Vec<String>)
    ensures
        views(r@) == load_message(aliases.pairs(), subs.pairs()),
{
    let mut r: Vec<String> = Vec::new();
    r.push(string_from("am: loaded .aliases"));
    let ae = aliases.entries();
    let ghost ap = aliases.pairs();
    let ghost fa = |p: (Seq<char>, AliasSpec)| "  "@ + p.0 + " = "@ + p.1.command;
    let mut i: usize = 0;
    proof {
        assert(views(r@) =~= seq!["am: loaded .aliases"@] + ap.take(0).map_values(fa));
    }
    while i < ae.len()
        invariant
            i <= ae@.len(),
            ae@.map_values(|p: (crate::alias::AliasName, crate::alias::TomlAlias)| (p.0@, p.1@)) == ap,
            fa == (|p: (Seq<char>, AliasSpec)| "  "@ + p.0 + " = "@ + p.1.command),
            views(r@) == seq!["am: loaded .aliases"@] + ap.take(i as int).map_values(fa),
        decreases ae@.len() - i,
    {
        let mut line = string_from("  ");
        push_str(&mut line, ae[i].0.as_str());
        push_str(&mut line, " = ");
        push_str(&mut line, ae[i].1.command());
        let ghost before = views(r@);
        proof {
            assert(ap[i as int] == (ae@[i as int].0@, ae@[i as int].1@));
            assert(ap.take(i + 1).map_values(fa) =~= ap.take(i as int).map_values(fa).push(fa(ap[i as int])));
        }
        r.push(line);
        proof {
            assert(views(r@) =~= before.push(line@));
        }
        i = i + 1;
    }
    proof {
        assert(ap.take(ae@.len() as int) =~= ap);
    }
    let se = subs.entries();
    let ghost sp = subs.pairs();
    let ghost fs = |p: (Seq<char>, SubSpec)| "  "@ + p.0 + " = "@ + join_spec(p.1.expansions, " "@);
    let ghost head = views(r@);
    let mut j: usize = 0;
    proof {
        assert(views(r@) =~= head + sp.take(0).map_values(fs));
    }
    while j < se.len()
        invariant
            j <= se@.len(),
            se@.map_values(|p: (String, crate::subcommand::TomlSubcommand)| (p.0@, p.1@)) == sp,
            fs == (|p: (Seq<char>, SubSpec)| "  "@ + p.0 + " = "@ + join_spec(p.1.expansions, " "@)),
            views(r@) == head + sp.take(j as int).map_values(fs),
        decreases se@.len() - j,
    {
        let mut line = string_from("  ");
        push_str(&mut line, se[j].0.as_str());
        push_str(&mut line, " = ");
        let e = join_strs(se[j].1.expansions(), " ");
        push_str(&mut line, e.as_str());
        let ghost before = views(r@);
        proof {
            assert(sp[j as int] == (se@[j as int].0@, se@[j as int].1@));
            assert(sp.take(j + 1).map_values(fs) =~= sp.take(j as int).map_values(fs).push(fs(sp[j as int])));
        }
        r.push(line);
        proof {
            assert(views(r@) =~= before.push(line@));
        }
        j = j + 1;
    }
    proof {
        assert(sp.take(se@.len() as int) =~= sp);
    }
    r
}

/// The parts of a change summary: counts of added, updated and removed
/// entries, each only when not zero.
pub open spec fn change_parts(added: nat, changed: nat, removed: nat) -> Seq<Seq<char>> {
    (if added > 0 {
        seq![decimal(added) + " added"@]
    } else {
        Seq::empty()
    }) + (if changed > 0 {
        seq![decimal(changed) + " updated"@]
    } else {
        Seq::empty()
    }) + (if removed > 0 {
        seq![decimal(removed) + " removed"@]
    } else {
        Seq::empty()
    })
}

/// The message shown when a loaded project's aliases changed.
pub open spec fn change_summary(added: nat, changed: nat, removed: nat) -> Seq<char> {
    "am: .aliases changed ("@ + join_spec(change_parts(added, changed, removed), ", "@) + ")"@
}

/// The change summary names each count that is not zero, in the order
/// added, updated, removed, separated by commas, inside
/// `am: .aliases changed (…)`.
pub proof fn law_change_summary_names_each_count(added: nat, changed: nat, removed: nat)
    ensures
        ({
            let s = change_summary(added, changed, removed);
            let head = "am: .aliases changed ("@;
            let a = decimal(added) + " added"@;
            let c = decimal(changed) + " updated"@;
            let r = decimal(removed) + " removed"@;
            let sep = ", "@;
            let tail = ")"@;
            &&& (added == 0 && changed == 0 && removed == 0) ==> s == head + tail
            &&& (added > 0 && changed == 0 && removed == 0) ==> s == head + a + tail
            &&& (added == 0 && changed > 0 && removed == 0) ==> s == head + c + tail
            &&& (added == 0 && changed == 0 && removed > 0) ==> s == head + r + tail
            &&& (added > 0 && changed > 0 && removed == 0) ==> s == head + a + sep + c + tail
            &&& (added > 0 && changed == 0 && removed > 0) ==> s == head + a + sep + r + tail
            &&& (added == 0 && changed > 0 && removed > 0) ==> s == head + c + sep + r + tail
            &&& (added > 0 && changed > 0 && removed > 0) ==> s == head + a + sep + c + sep + r + tail
        }),
{
    reveal_with_fuel(join_spec, 4);
    let head = "am: .aliases changed ("@;
    let a = decimal(added) + " added"@;
    let c = decimal(changed) + " updated"@;
    let r = decimal(removed) + " removed"@;
    let sep = ", "@;
    let tail = ")"@;
    let parts = change_parts(added, changed, removed);
    if added > 0 && changed > 0 && removed > 0 {
        assert(parts =~= seq![a, c, r]);
        assert(seq![a, c, r].drop_last() =~= seq![a, c]);
        assert(seq![a, c].drop_last() =~= seq![a]);
        assert(head + join_spec(parts, sep) + tail =~= head + a + sep + c + sep + r + tail);
    } else if added > 0 && changed > 0 {
        assert(parts =~= seq![a, c]);
        assert(seq![a, c].drop_last() =~= seq![a]);
        assert(head + join_spec(parts, sep) + tail =~= head + a + sep + c + tail);
    } else if added > 0 && removed > 0 {
        assert(parts =~= seq![a, r]);
        assert(seq![a, r].drop_last() =~= seq![a]);
        assert(head + join_spec(parts, sep) + tail =~= head + a + sep + r + tail);
    } else if changed > 0 && removed > 0 {
        assert(parts =~= seq![c, r]);
        assert(seq![c, r].drop_last() =~= seq![c]);
        assert(head + join_spec(parts, sep) + tail =~= head + c + sep + r + tail);
    } else if added > 0 {
        assert(parts =~= seq![a]);
        assert(head + join_spec(parts, sep) + tail =~= head + a + tail);
    } else if changed > 0 {
        assert(parts =~= seq![c]);
        assert(head + join_spec(parts, sep) + tail =~= head + c + tail);
    } else if removed > 0 {
        assert(parts =~= seq![r]);
        assert(head + join_spec(parts, sep) + tail =~= head + r + tail);
    } else {
        assert(parts =~= Seq::<Seq<char>>::empty());
        assert(head + join_spec(parts, sep) + tail =~= head + tail);
    }
}

/// The message summarising what changed in a loaded project.
pub fn render_change_summary(added: usize, changed: usize, removed: usize) -> (r: String)
    ensures
        r@ == change_summary(added as nat, changed as nat, removed as nat),
{
    let mut parts: Vec<String> = Vec::new();
    if added > 0 {
        let mut p = decimal_string(added);
        push_str(&mut p, " added");
        parts.push(p);
    }
    let ghost p1 = views(parts@);
    if changed > 0 {
        let mut p = decimal_string(changed);
        push_str(&mut p, " updated");
        parts.push(p);
        proof {
            assert(views(parts@) =~= p1.push(p@));
        }
    }
    let ghost p2 = views(parts@);
    if removed > 0 {
        let mut p = decimal_string(removed);
        push_str(&mut p, " removed");
        parts.push(p);
        proof {
            assert(views(parts@) =~= p2.push(p@));
        }
    }
    proof {
        assert(views(parts@) =~= change_parts(added as nat, changed as nat, removed as nat));
    }
    let mut r = string_from("am: .aliases changed (");
    let j = join_strs(parts.as_slice(), ", ");
    push_str(&mut r, j.as_str());
    push_str(&mut r, ")");
    r
}

/// The message shown when leaving a project: the names that were dropped.
pub open spec fn unload_message(names: Seq<Seq<char>>) -> Seq<char> {
    "am: unloaded .aliases ("@ + join_spec(names, ", "@) + ")"@
}

/// The message naming the aliases dropped on leaving a project.
pub fn render_unload_message(names: &[String]) -> (r: String)
    ensures
        r@ == unload_message(views(names@)),
{
    let mut r = string_from("am: unloaded .aliases (");
    let j = join_strs(names, ", ");
    push_str(&mut r, j.as_str());
    push_str(&mut r, ")");
    r
}

/// The value of the tracking variable: `name|hash` items joined by `,`.
pub open spec fn tracking_value(pairs: Seq<(Seq<char>, Seq<char>)>) -> Seq<char> {
    join_spec(pairs.map_values(|p: (Seq<char>, Seq<char>)| p.0 + "|"@ + p.1), ","@)
}

/// The tracking value of a tracking map.
pub fn render_tracking_value(current: &StrMap<String, String>) -> (r: String)
    ensures
        r@ == tracking_value(current.spec_pairs()),
{
    let ce = current.entries();
    let ghost cp = current.spec_pairs();
    let ghost f = |p: (Seq<char>, Seq<char>)| p.0 + "|"@ + p.1;
    let mut items: Vec<String> = Vec::new();
    let mut i: usize = 0;
    while i < ce.len()
        invariant
            i <= ce@.len(),
            entries_view(ce@) == cp,
            f == (|p: (Seq<char>, Seq<char>)| p.0 + "|"@ + p.1),
            views(items@) == cp.take(i as int).map_values(f),
        decreases ce@.len() - i,
    {
        let mut item = ce[i].0.clone();
        push_str(&mut item, "|");
        push_str(&mut item, ce[i].1.as_str());
        let ghost before = views(items@);
        proof {
            assert(cp[i as int] == (ce@[i as int].0@, ce@[i as int].1@));
            assert(cp.take(i + 1).map_values(f) =~= cp.take(i as int).map_values(f).push(f(cp[i as int])));
        }
        items.push(item);
        proof {
            assert(views(items@) =~= before.push(item@));
        }
        i = i + 1;
    }
    proof {
        assert(cp.take(ce@.len() as int) =~= cp);
    }
    join_strs(items.as_slice(), ",")
}

/// Does any name hold a `:` or name a program with subcommand aliases?
pub open spec fn touches_subcommands(names: Seq<Seq<char>>, programs: Map<Seq<char>, Seq<EntrySpec>>) -> bool {
    exists|i: int| 0 <= i < names.len() && (names[i].contains(':') || programs.contains_key(#[trigger] names[i]))
}

fn any_touches_subcommands(names: &[String], programs: &StrMap<String, SubcommandGroup>) -> (r: bool)
    ensures
        r == touches_subcommands(views(names@), programs.spec_map()),
{
    let mut i: usize = 0;
    while i < names.len()
        invariant
            i <= names@.len(),
            forall|k: int|
                0 <= k < i ==> !(views(names@)[k].contains(':') || programs.spec_map().contains_key(
                    #[trigger] views(names@)[k],
                )),
        decreases names@.len() - i,
    {
        let n = names[i].as_str();
        if contains_char(n, ':') || programs.contains_key(n) {
            assert(views(names@)[i as int] == n@);
            return true;
        }
        i = i + 1;
    }
    false
}

/// The alias definitions for `pairs`, in order, leaving out programs that
/// get a subcommand wrapper and, when `only` is given, names not in it.
pub open spec fn alias_lines(
    sh: Shell,
    pairs: Seq<(Seq<char>, AliasSpec)>,
    programs: Map<Seq<char>, Seq<EntrySpec>>,
    only: Option<Seq<Seq<char>>>,
) -> Seq<Seq<char>>
    decreases pairs.len(),
{
    if pairs.len() == 0 {
        Seq::empty()
    } else {
        let p = pairs.last();
        let picked = match only {
            None => true,
            Some(ns) => ns.contains(p.0),
        };
        alias_lines(sh, pairs.drop_last(), programs, only) + (if !programs.contains_key(p.0) && picked {
            seq![alias_line(sh, p.0, p.1.command)]
        } else {
            Seq::empty()
        })
    }
}

proof fn lemma_contains_concat(a: Seq<Seq<char>>, b: Seq<Seq<char>>, x: Seq<char>)
    ensures
        (a + b).contains(x) == (a.contains(x) || b.contains(x)),
{
    if a.contains(x) {
        let i = choose|i: int| 0 <= i < a.len() && a[i] == x;
        assert((a + b)[i] == x);
    }
    if b.contains(x) {
        let i = choose|i: int| 0 <= i < b.len() && b[i] == x;
        assert((a + b)[a.len() + i] == x);
    }
    if (a + b).contains(x) {
        let i = choose|i: int| 0 <= i < (a + b).len() && (a + b)[i] == x;
        if i < a.len() {
            assert(a[i] == x);
        } else {
            assert(b[i - a.len()] == x);
        }
    }
}

/// Appends the alias definitions of `aliases`, leaving out programs that
/// get a subcommand wrapper and, when `only` is given, names in neither
/// of its lists.
fn push_alias_lines(
    lines: &mut Vec<String>,
    sh: Shell,
    aliases: &AliasSet,
    programs: &StrMap<String, SubcommandGroup>,
    only: Option<(&[String], &[String])>,
)
    ensures
        views(final(lines)@) == views(old(lines)@) + alias_lines(
            sh,
            aliases.pairs(),
            programs.spec_map(),
            match only {
                None => None,
                Some(p) => Some(views(p.0@) + views(p.1@)),
            },
        ),
{
    let ghost o = match only {
        None => None,
        Some(p) => Some(views(p.0@) + views(p.1@)),
    };
    let ae = aliases.entries();
    let ghost ap = aliases.pairs();
    let ghost start = views(lines@);
    let mut i: usize = 0;
    while i < ae.len()
        invariant
            i <= ae@.len(),
            ae@.map_values(|p: (crate::alias::AliasName, crate::alias::TomlAlias)| (p.0@, p.1@)) == ap,
            o == match only {
                None => None,
                Some(p) => Some(views(p.0@) + views(p.1@)),
            },
            views(lines@) == start + alias_lines(sh, ap.take(i as int), programs.spec_map(), o),
        decreases ae@.len() - i,
    {
        let name = ae[i].0.as_str();
        proof {
            assert(ap[i as int] == (ae@[i as int].0@, ae@[i as int].1@));
            assert(ap.take(i + 1).drop_last() =~= ap.take(i as int));
            assert(ap.take(i + 1).last() == ap[i as int]);
        }
        let picked = match only {
            None => true,
            Some(p) => {
                proof {
                    lemma_contains_concat(views(p.0@), views(p.1@), name@);
                }
                crate::text::contains_str(p.0, name) || crate::text::contains_str(p.1, name)
            },
        };
        if !programs.contains_key(name) && picked {
            let ghost before = views(lines@);
            let l = sh.alias(&ae[i].1.as_entry(name));
            lines.push(l);
            proof {
                assert(views(lines@) =~= before.push(l@));
            }
        }
        proof {
            assert(views(lines@) =~= start + alias_lines(sh, ap.take(i + 1), programs.spec_map(), o));
        }
        i = i + 1;
    }
    proof {
        assert(ap.take(ae@.len() as int) =~= ap);
    }
}

/// The command a program's wrapper falls back to: the alias of the same
/// name, else the program itself.
pub open spec fn base_command(aliases: Map<Seq<char>, AliasSpec>, program: Seq<char>) -> Seq<char> {
    if aliases.contains_key(program) {
        aliases[program].command
    } else {
        "command "@ + program
    }
}

/// The subcommand wrappers, one per program, in order.
pub open spec fn wrapper_lines(
    sh: Shell,
    aliases: Map<Seq<char>, AliasSpec>,
    groups: Seq<(Seq<char>, Seq<EntrySpec>)>,
) -> Seq<Seq<char>> {
    groups.map_values(|g: (Seq<char>, Seq<EntrySpec>)| wrapper_text(sh, g.0, base_command(aliases, g.0), g.1))
}

/// Appends the subcommand wrapper of each program.
fn push_wrappers(
    lines: &mut Vec<String>,
    sh: Shell,
    aliases: &AliasSet,
    groups: &StrMap<String, SubcommandGroup>,
)
    ensures
        views(final(lines)@) == views(old(lines)@) + wrapper_lines(sh, aliases@, groups.spec_pairs()),
{
    let ge = groups.entries();
    let ghost gp = groups.spec_pairs();
    let ghost f = |g: (Seq<char>, Seq<EntrySpec>)| wrapper_text(sh, g.0, base_command(aliases@, g.0), g.1);
    let ghost start = views(lines@);
    let mut i: usize = 0;
    while i < ge.len()
        invariant
            i <= ge@.len(),
            entries_view(ge@) == gp,
            f == (|g: (Seq<char>, Seq<EntrySpec>)| wrapper_text(sh, g.0, base_command(aliases@, g.0), g.1)),
            views(lines@) == start + gp.take(i as int).map_values(f),
        decreases ge@.len() - i,
    {
        let program = ge[i].0.as_str();
        let base = match aliases.get_str(program) {
            Some(a) => string_from(a.command()),
            None => {
                let mut b = string_from("command ");
                push_str(&mut b, program);
                b
            },
        };
        let l = sh.subcommand_wrapper(program, base.as_str(), ge[i].1.0.as_slice());
        let ghost before = views(lines@);
        proof {
            assert(gp[i as int] == (ge@[i as int].0@, ge@[i as int].1@));
            assert(gp.take(i + 1).map_values(f) =~= gp.take(i as int).map_values(f).push(f(gp[i as int])));
        }
        lines.push(l);
        proof {
            assert(views(lines@) =~= before.push(l@));
        }
        i = i + 1;
    }
    proof {
        assert(gp.take(ge@.len() as int) =~= gp);
    }
}

/// The messages for a changed trusted project: none unless `show`; the
/// load message on a fresh load, else a change summary.
pub open spec fn change_messages(
    sh: Shell,
    aliases: Seq<(Seq<char>, AliasSpec)>,
    subs: Seq<(Seq<char>, SubSpec)>,
    counts: (nat, nat, nat),
    fresh: bool,
    show: bool,
) -> Seq<Seq<char>> {
    if !show {
        Seq::empty()
    } else if fresh {
        echo_lines(sh, load_message(aliases, subs))
    } else {
        seq![echo_line(sh, change_summary(counts.0, counts.1, counts.2))]
    }
}

/// The definitions for a changed trusted project: all aliases and wrappers
/// on a fresh load; else the added or changed aliases, and the wrappers
/// when a subcommand alias or a program was touched.
pub open spec fn change_definitions(
    sh: Shell,
    aliases: Seq<(Seq<char>, AliasSpec)>,
    subs: Seq<(Seq<char>, SubSpec)>,
    added: Seq<Seq<char>>,
    changed: Seq<Seq<char>>,
    removed: Seq<Seq<char>>,
    fresh: bool,
) -> Seq<Seq<char>> {
    let groups = grouped(subs);
    let wrappers = wrapper_lines(sh, pairs_map(aliases), sorted_pairs(groups));
    if fresh {
        alias_lines(sh, aliases, groups, None) + wrappers
    } else {
        alias_lines(sh, aliases, groups, Some(added + changed)) + (if touches_subcommands(added, groups)
            || touches_subcommands(changed, groups) || touches_subcommands(removed, groups) {
            wrappers
        } else {
            Seq::empty()
        })
    }
}

/// The lines for a trusted project with content: nothing when the tracked
/// state is unchanged; else what was removed or changed is unloaded, the
/// messages and definitions follow, and the tracking variable is set.
pub open spec fn trusted_lines(
    sh: Shell,
    prev: Map<Seq<char>, Option<Seq<char>>>,
    aliases: Seq<(Seq<char>, AliasSpec)>,
    subs: Seq<(Seq<char>, SubSpec)>,
    show: bool,
) -> Option<Seq<Seq<char>>> {
    let cur = tracking(aliases, subs);
    let cp = sorted_pairs(cur);
    let removed = removed_keys(sorted_pairs(prev), cur);
    let added = added_keys(cp, prev);
    let changed = changed_keys(cp, prev);
    if removed.len() == 0 && added.len() == 0 && changed.len() == 0 {
        None
    } else {
        let fresh = prev == Map::<Seq<char>, Option<Seq<char>>>::empty();
        Some(unalias_lines(sh, removed) + unalias_lines(sh, changed) + change_messages(
            sh,
            aliases,
            subs,
            (added.len(), changed.len(), removed.len()),
            fresh,
            show,
        ) + change_definitions(sh, aliases, subs, added, changed, removed, fresh) + seq![
            set_env_line(sh, AM_PROJECT_ALIASES@, tracking_value(cp)),
        ])
    }
}

proof fn lemma_strmap_sorted<K: crate::strmap::StrKey, V: View>(m: &StrMap<K, V>)
    requires
        crate::strmap::keys_sorted(m.spec_keys()),
    ensures
        sorted_pairs(m.spec_map()) == m.spec_pairs(),
{
    lemma_sorted_pairs_of(m.spec_pairs());
}

fn push_change_messages(
    lines: &mut Vec<String>,
    sh: Shell,
    project: &ProjectAliases,
    counts: (usize, usize, usize),
    fresh: bool,
    show: bool,
)
    ensures
        views(final(lines)@) == views(old(lines)@) + change_messages(
            sh,
            project.aliases.pairs(),
            project.subcommands.pairs(),
            (counts.0 as nat, counts.1 as nat, counts.2 as nat),
            fresh,
            show,
        ),
{
    if show {
        if fresh {
            let msgs = render_load_message(&project.aliases, &project.subcommands);
            push_echoes(lines, sh, msgs.as_slice());
        } else {
            let m = render_change_summary(counts.0, counts.1, counts.2);
            let ghost before = views(lines@);
            let l = sh.echo(m.as_str());
            lines.push(l);
            proof {
                assert(views(lines@) =~= before.push(l@));
            }
        }
    } else {
        assert(views(lines@) =~= views(lines@) + Seq::<Seq<char>>::empty());
    }
}

fn push_change_definitions(
    lines: &mut Vec<String>,
    sh: Shell,
    project: &ProjectAliases,
    diff: &HookDiff,
    fresh: bool,
)
    ensures
        views(final(lines)@) == views(old(lines)@) + change_definitions(
            sh,
            project.aliases.pairs(),
            project.subcommands.pairs(),
            views(diff.added@),
            views(diff.changed@),
            views(diff.removed@),
            fresh,
        ),
{
    let groups = program_groups(&project.subcommands);
    let ae = project.aliases.entries();
    if fresh {
        push_alias_lines(lines, sh, &project.aliases, &groups, None);
        push_wrappers(lines, sh, &project.aliases, &groups);
    } else {
        push_alias_lines(lines, sh, &project.aliases, &groups, Some((diff.added.as_slice(), diff.changed.as_slice())));
        let ghost mid = views(lines@);
        if any_touches_subcommands(diff.added.as_slice(), &groups) || any_touches_subcommands(
            diff.changed.as_slice(),
            &groups,
        ) || any_touches_subcommands(diff.removed.as_slice(), &groups) {
            push_wrappers(lines, sh, &project.aliases, &groups);
        } else {
            assert(views(lines@) =~= mid + Seq::<Seq<char>>::empty());
        }
    }
}

fn trusted_project_lines(sh: Shell, prev: &StrMap<String, PrevHash>, project: &ProjectAliases, show: bool) -> (r:
    Option<Vec<String>>)
    ensures
        match r {
            None => trusted_lines(sh, prev.spec_map(), project.aliases.pairs(), project.subcommands.pairs(), show)
                is None,
            Some(v) => trusted_lines(sh, prev.spec_map(), project.aliases.pairs(), project.subcommands.pairs(), show)
                == Some(views(v@)),
        },
{
    let current = current_tracking(project);
    let diff = diff_tracking(prev, &current);
    let pe = prev.entries();
    let ce = current.entries();
    proof {
        lemma_strmap_sorted(prev);
        lemma_strmap_sorted(&current);
    }
    if diff.removed.len() == 0 && diff.added.len() == 0 && diff.changed.len() == 0 {
        return None;
    }
    let fresh = prev.is_empty();
    let mut lines: Vec<String> = Vec::new();
    push_unaliases(&mut lines, sh, diff.removed.as_slice());
    push_unaliases(&mut lines, sh, diff.changed.as_slice());
    push_change_messages(
        &mut lines,
        sh,
        project,
        (diff.added.len(), diff.changed.len(), diff.removed.len()),
        fresh,
        show,
    );
    push_change_definitions(&mut lines, sh, project, &diff, fresh);
    let tv = render_tracking_value(&current);
    let ghost before = views(lines@);
    let l = sh.set_env(AM_PROJECT_ALIASES, tv.as_str());
    lines.push(l);
    proof {
        assert(views(lines@) =~= before.push(l@));
    }
    Some(lines)
}

/// A project file found for the current directory, as the hook sees it:
/// its path (as shown and tracked), whether it lies in the directory
/// itself rather than in a parent, its trust state, and its contents
/// (read only when trusted).
#[derive(Debug)]
pub struct ProjectScan {
    pub path: String,
    pub is_direct: bool,
    pub status: TrustStatus,
    pub project: ProjectAliases,
}

/// What the hook reads of a project scan.
pub struct ScanSpec {
    pub path: Seq<char>,
    pub is_direct: bool,
    pub status: TrustStatus,
    pub aliases: Seq<(Seq<char>, AliasSpec)>,
    pub subs: Seq<(Seq<char>, SubSpec)>,
}

impl View for ProjectScan {
    type V = ScanSpec;

    open spec fn view(&self) -> ScanSpec {
        ScanSpec {
            path: self.path@,
            is_direct: self.is_direct,
            status: self.status,
            aliases: self.project.aliases.pairs(),
            subs: self.project.subcommands.pairs(),
        }
    }
}

/// The view of an optional scan.
pub open spec fn scan_view(scan: Option<&ProjectScan>) -> Option<ScanSpec> {
    match scan {
        Some(s) => Some(s@),
        None => None,
    }
}

/// The warning for a project file that was never reviewed.
pub open spec fn not_trusted_message() -> Seq<char> {
    "am: .aliases found but not trusted. Run 'am trust' to review and allow."@
}

/// The warning for a project file changed since it was trusted.
pub open spec fn tampered_message() -> Seq<char> {
    "am: .aliases was modified since last trusted. Run 'am trust' to review and allow."@
}

/// The lines for a project that is not trusted: the previous aliases
/// unloaded, a warning (when `show`) for one never reviewed or tampered
/// with, its path tracked, and the alias tracking cleared if there was any.
pub open spec fn untrusted_lines(
    sh: Shell,
    names: Seq<Seq<char>>,
    had_prev: bool,
    status: TrustStatus,
    path: Seq<char>,
    show: bool,
) -> Seq<Seq<char>> {
    let warn = if show && status == TrustStatus::Unknown {
        seq![echo_line(sh, not_trusted_message())]
    } else if show && status == TrustStatus::Tampered {
        seq![echo_line(sh, tampered_message())]
    } else {
        Seq::empty()
    };
    unalias_lines(sh, names) + warn + seq![set_env_line(sh, AM_PROJECT_PATH@, path)] + (if had_prev {
        seq![unset_env_line(sh, AM_PROJECT_ALIASES@)]
    } else {
        Seq::empty()
    })
}

/// The lines for leaving every project: when aliases were tracked, they are
/// unloaded, named in a message unless `quiet`, and their tracking cleared.
pub open spec fn leaving_lines(sh: Shell, names: Seq<Seq<char>>, had_prev: bool, quiet: bool) -> Seq<Seq<char>> {
    if had_prev {
        unalias_lines(sh, names) + (if !quiet {
            seq![echo_line(sh, unload_message(shell_level(names)))]
        } else {
            Seq::empty()
        }) + seq![unset_env_line(sh, AM_PROJECT_ALIASES@)]
    } else {
        Seq::empty()
    }
}

/// The lines of a hook run, or nothing at all when a trusted project's
/// tracked state is unchanged.
///
/// Messages show only when not `quiet`, for a file in the directory itself,
/// and not for the file the previous run already reported. A trusted
/// project with content gets `trusted_lines`, and the tracked path is
/// cleared after it; see `untrusted_lines` and `leaving_lines` for the rest.
pub open spec fn hook_lines(
    sh: Shell,
    prev: Map<Seq<char>, Option<Seq<char>>>,
    prev_path: Option<Seq<char>>,
    scan: Option<ScanSpec>,
    quiet: bool,
) -> Option<Seq<Seq<char>>> {
    let names = pair_keys(sorted_pairs(prev));
    let had_prev = prev != Map::<Seq<char>, Option<Seq<char>>>::empty();
    let clear_path = if prev_path is Some {
        seq![unset_env_line(sh, AM_PROJECT_PATH@)]
    } else {
        Seq::empty()
    };
    match scan {
        Some(s) => {
            let show = !quiet && s.is_direct && prev_path != Some(s.path);
            if s.status == TrustStatus::Trusted {
                let body = if s.aliases.len() == 0 && s.subs.len() == 0 {
                    Some(Seq::empty())
                } else {
                    trusted_lines(sh, prev, s.aliases, s.subs, show)
                };
                match body {
                    None => None,
                    Some(b) => Some(b + clear_path),
                }
            } else {
                Some(untrusted_lines(sh, names, had_prev, s.status, s.path, show))
            }
        },
        None => Some(leaving_lines(sh, names, had_prev, quiet) + clear_path),
    }
}

/// The shell code of a hook run: its lines joined by newlines.
pub open spec fn hook_output(
    sh: Shell,
    prev: Map<Seq<char>, Option<Seq<char>>>,
    prev_path: Option<Seq<char>>,
    scan: Option<ScanSpec>,
    quiet: bool,
) -> Seq<char> {
    match hook_lines(sh, prev, prev_path, scan, quiet) {
        None => Seq::empty(),
        Some(lines) => join_spec(lines, "\n"@),
    }
}

/// The names of a tracking map, in order.
fn tracked_names(prev: &StrMap<String, PrevHash>) -> (r: Vec<String>)
    ensures
        views(r@) == prev.spec_keys(),
{
    let pe = prev.entries();
    let ghost pp = prev.spec_pairs();
    let mut r: Vec<String> = Vec::new();
    let mut i: usize = 0;
    while i < pe.len()
        invariant
            i <= pe@.len(),
            entries_view(pe@) == pp,
            views(r@) == pair_keys(pp.take(i as int)),
        decreases pe@.len() - i,
    {
        let ghost before = views(r@);
        let k = pe[i].0.clone();
        proof {
            assert(pp[i as int].0 == k@);
        }
        r.push(k);
        proof {
            assert(views(r@) =~= before.push(k@));
            assert(pair_keys(pp.take(i + 1)) =~= pair_keys(pp.take(i as int)).push(pp[i as int].0));
        }
        i = i + 1;
    }
    proof {
        assert(pp.take(pe@.len() as int) =~= pp);
    }
    r
}

fn push_line(lines: &mut Vec<String>, l: String)
    ensures
        views(final(lines)@) == views(old(lines)@).push(l@),
{
    let ghost before = views(lines@);
    lines.push(l);
    proof {
        assert(views(lines@) =~= before.push(l@));
    }
}

fn push_untrusted_lines(
    lines: &mut Vec<String>,
    sh: Shell,
    names: &[String],
    had_prev: bool,
    status: TrustStatus,
    path: &str,
    show: bool,
)
    ensures
        views(final(lines)@) == views(old(lines)@) + untrusted_lines(sh, views(names@), had_prev, status, path@, show),
{
    let ghost start = views(lines@);
    push_unaliases(lines, sh, names);
    let ghost a = views(lines@);
    if show && status == TrustStatus::Unknown {
        push_line(lines, sh.echo("am: .aliases found but not trusted. Run 'am trust' to review and allow."));
    } else if show && status == TrustStatus::Tampered {
        push_line(lines, sh.echo("am: .aliases was modified since last trusted. Run 'am trust' to review and allow."));
    }
    push_line(lines, sh.set_env(AM_PROJECT_PATH, path));
    let ghost b = views(lines@);
    if had_prev {
        push_line(lines, sh.unset_env(AM_PROJECT_ALIASES));
    }
    assert(views(lines@) =~= start + untrusted_lines(sh, views(names@), had_prev, status, path@, show));
}

fn push_leaving_lines(lines: &mut Vec<String>, sh: Shell, names: &[String], had_prev: bool, quiet: bool)
    ensures
        views(final(lines)@) == views(old(lines)@) + leaving_lines(sh, views(names@), had_prev, quiet),
{
    let ghost start = views(lines@);
    if had_prev {
        push_unaliases(lines, sh, names);
        if !quiet {
            let kept = shell_level_names(names);
            let m = render_unload_message(kept.as_slice());
            push_line(lines, sh.echo(m.as_str()));
        }
        push_line(lines, sh.unset_env(AM_PROJECT_ALIASES));
    }
    assert(views(lines@) =~= start + leaving_lines(sh, views(names@), had_prev, quiet));
}

/// The shell code for the cd hook, from what was found for the current
/// directory (`scan`), the tracking value of the previous run
/// (`previous_aliases`) and the project path it reported
/// (`prev_project_path`); with `quiet`, no messages. The flag is set when
/// the project file was tampered with, so that its trust record is saved.
pub fn generate_hook_with_security(
    shell: Shell,
    previous_aliases: Option<&str>,
    prev_project_path: Option<&str>,
    scan: Option<&ProjectScan>,
    quiet: bool,
) -> (r: (String, bool))
    ensures
        r.0@ == hook_output(
            shell,
            prev_map(opt_str_view(previous_aliases)),
            opt_str_view(prev_project_path),
            scan_view(scan),
            quiet,
        ),
        r.1 == (scan matches Some(s) && s.status == TrustStatus::Tampered),
{
    let sh = shell;
    let prev = parse_prev_aliases(previous_aliases);
    let pe = prev.entries();
    proof {
        lemma_strmap_sorted(&prev);
    }
    let names = tracked_names(&prev);
    let had_prev = !prev.is_empty();
    let mut lines: Vec<String> = Vec::new();
    let mut tampered = false;
    match scan {
        Some(s) => {
            let seen = opt_str_equal(prev_project_path, Some(s.path.as_str()));
            let show = !quiet && s.is_direct && !seen;
            if s.status == TrustStatus::Trusted {
                if !s.project.aliases.is_empty() || !s.project.subcommands.is_empty() {
                    match trusted_project_lines(sh, &prev, &s.project, show) {
                        None => {
                            return (String::new(), false);
                        },
                        Some(body) => {
                            lines = body;
                        },
                    }
                }
                if prev_project_path.is_some() {
                    push_line(&mut lines, sh.unset_env(AM_PROJECT_PATH));
                }
            } else {
                tampered = s.status == TrustStatus::Tampered;
                push_untrusted_lines(&mut lines, sh, names.as_slice(), had_prev, s.status, s.path.as_str(), show);
            }
        },
        None => {
            push_leaving_lines(&mut lines, sh, names.as_slice(), had_prev, quiet);
            if prev_project_path.is_some() {
                push_line(&mut lines, sh.unset_env(AM_PROJECT_PATH));
            }
        },
    }
    proof {
        let h = hook_lines(
            shell,
            prev.spec_map(),
            opt_str_view(prev_project_path),
            scan_view(scan),
            quiet,
        );
        assert(h is Some);
        assert(views(lines@) =~= h->0);
    }
    (join_strs(lines.as_slice(), "\n"), tampered)
}

/// The shell definitions of a set of aliases and subcommand aliases: each
/// alias that is not a program with subcommand aliases, then one wrapper
/// per program (what a shell's init loads).
pub fn definition_lines(sh: Shell, aliases: &AliasSet, subs: &SubcommandSet) -> (r: Vec<String>)
    ensures
        views(r@) == alias_lines(sh, aliases.pairs(), grouped(subs.pairs()), None) + wrapper_lines(
            sh,
            aliases@,
            sorted_pairs(grouped(subs.pairs())),
        ),
{
    let groups = program_groups(subs);
    let mut lines: Vec<String> = Vec::new();
    proof {
        assert(views(lines@) =~= Seq::<Seq<char>>::empty());
    }
    push_alias_lines(&mut lines, sh, aliases, &groups, None);
    push_wrappers(&mut lines, sh, aliases, &groups);
    lines
}

} // verus!

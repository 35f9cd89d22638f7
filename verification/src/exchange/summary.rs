//! Human-readable summaries of what an import would change.
use vstd::prelude::*;

use crate::alias::{AliasConflict, AliasName, AliasSpec, MergeResult, TomlAlias};
use crate::described::Described;
use crate::exchange::{SubcommandConflict, SubcommandMergeResult, VarConflict, VarMergeResult};
use crate::subcommand::{opt_str_equal, strings_equal, SubSpec, TomlSubcommand};
use crate::text::{decimal, decimal_string, join_spec, join_strs, push_str, str_equal, string_from};
use crate::vars::VarName;

verus! {

/// `s` for a count other than one.
pub open spec fn plural(n: nat) -> Seq<char> {
    if n == 1 {
        ""@
    } else {
        "s"@
    }
}

/// The line that opens a conflict list.
pub open spec fn conflict_head(n: nat) -> Seq<char> {
    "\n  "@ + decimal(n) + " conflict"@ + plural(n) + ":\n"@
}

/// A description, or `(none)`.
pub open spec fn or_none(d: Option<Seq<char>>) -> Seq<char> {
    match d {
        Some(s) => s,
        None => "(none)"@,
    }
}

/// The description lines of a conflict, present when the descriptions differ.
pub open spec fn desc_lines(cur: Option<Seq<char>>, inc: Option<Seq<char>>) -> Seq<char> {
    if cur != inc {
        "      - # "@ + or_none(cur) + "\n"@ + "      + # "@ + or_none(inc) + "\n"@
    } else {
        Seq::empty()
    }
}

/// `- old` / `+ new` lines, present when the two texts differ.
pub open spec fn change_lines(cur: Seq<char>, inc: Seq<char>) -> Seq<char> {
    if cur != inc {
        "      - "@ + cur + "\n"@ + "      + "@ + inc + "\n"@
    } else {
        Seq::empty()
    }
}

fn conflict_head_text(n: usize) -> (r: String)
    ensures
        r@ == conflict_head(n as nat),
{
    let mut s = string_from("\n  ");
    let d = decimal_string(n);
    push_str(&mut s, d.as_str());
    push_str(&mut s, " conflict");
    push_str(&mut s, if n == 1 { "" } else { "s" });
    push_str(&mut s, ":\n");
    s
}

fn or_none_text(d: Option<&str>) -> (r: &str)
    ensures
        r@ == or_none(crate::described::opt_str_view(d)),
{
    match d {
        Some(s) => s,
        None => "(none)",
    }
}

fn desc_lines_text(cur: Option<&str>, inc: Option<&str>) -> (r: String)
    ensures
        r@ == desc_lines(crate::described::opt_str_view(cur), crate::described::opt_str_view(inc)),
{
    if opt_str_equal(cur, inc) {
        String::new()
    } else {
        let mut s = string_from("      - # ");
        push_str(&mut s, or_none_text(cur));
        push_str(&mut s, "\n");
        push_str(&mut s, "      + # ");
        push_str(&mut s, or_none_text(inc));
        push_str(&mut s, "\n");
        s
    }
}

fn change_lines_text(cur: &str, inc: &str) -> (r: String)
    ensures
        r@ == change_lines(cur@, inc@),
{
    if str_equal(cur, inc) {
        String::new()
    } else {
        let mut s = string_from("      - ");
        push_str(&mut s, cur);
        push_str(&mut s, "\n");
        push_str(&mut s, "      + ");
        push_str(&mut s, inc);
        push_str(&mut s, "\n");
        s
    }
}

// ── aliases ─────────────────────────────────────────────────────────────

/// The header line of an alias summary.
pub open spec fn alias_summary_head(scope: Seq<char>, total: nat) -> Seq<char> {
    "Importing \""@ + scope + "\" ("@ + decimal(total) + " aliases)\n"@
}

/// The `new:` list, accumulated over the new aliases in order.
pub open spec fn alias_new_acc(pairs: Seq<(Seq<char>, AliasSpec)>) -> Seq<char>
    decreases pairs.len(),
{
    if pairs.len() == 0 {
        "\n  new:\n"@
    } else {
        alias_new_acc(pairs.drop_last()) + "    "@ + pairs.last().0 + " \u{2192} "@
            + pairs.last().1.command + "\n"@
    }
}

/// The lines for one alias conflict.
pub open spec fn alias_conflict_block(c: (Seq<char>, AliasSpec, AliasSpec)) -> Seq<char> {
    "\n    "@ + c.0 + ":\n"@ + change_lines(c.1.command, c.2.command) + desc_lines(
        c.1.description,
        c.2.description,
    )
}

/// The conflict list, accumulated over the conflicts in order.
pub open spec fn alias_conflicts_acc(cs: Seq<(Seq<char>, AliasSpec, AliasSpec)>, n: nat) -> Seq<char>
    decreases cs.len(),
{
    if cs.len() == 0 {
        conflict_head(n)
    } else {
        alias_conflicts_acc(cs.drop_last(), n) + alias_conflict_block(cs.last())
    }
}

/// The full import summary for the aliases of one scope.
pub open spec fn alias_summary(
    scope: Seq<char>,
    new: Seq<(Seq<char>, AliasSpec)>,
    cs: Seq<(Seq<char>, AliasSpec, AliasSpec)>,
) -> Seq<char> {
    alias_summary_head(scope, new.len() + cs.len()) + (if new.len() == 0 {
        Seq::empty()
    } else {
        alias_new_acc(new)
    }) + (if cs.len() == 0 {
        Seq::empty()
    } else {
        alias_conflicts_acc(cs, cs.len())
    })
}

fn alias_conflict_text(c: &AliasConflict) -> (r: String)
    ensures
        r@ == alias_conflict_block(c@),
{
    let mut s = string_from("\n    ");
    push_str(&mut s, c.name.as_str());
    push_str(&mut s, ":\n");
    let ch = change_lines_text(c.current.command(), c.incoming.command());
    push_str(&mut s, ch.as_str());
    let d = desc_lines_text(c.current.description(), c.incoming.description());
    push_str(&mut s, d.as_str());
    s
}

/// The import summary for one scope's aliases: how many, which are new,
/// and what each conflict would change.
pub fn render_import_summary(scope_name: &str, result: &MergeResult) -> (r: String)
    requires
        result.new_aliases@.len() + result.conflicts@.len() <= usize::MAX,
    ensures
        r@ == alias_summary(
            scope_name@,
            result.new_aliases.pairs(),
            result.conflicts@.map_values(|c: AliasConflict| c@),
        ),
{
    let entries = result.new_aliases.entries();
    let ghost pairs = result.new_aliases.pairs();
    let ghost cs = result.conflicts@.map_values(|c: AliasConflict| c@);
    let total = result.new_aliases.len() + result.conflicts.len();
    let mut out = string_from("Importing \"");
    push_str(&mut out, scope_name);
    push_str(&mut out, "\" (");
    let t = decimal_string(total);
    push_str(&mut out, t.as_str());
    push_str(&mut out, " aliases)\n");
    let mut new_part = String::new();
    if entries.len() > 0 {
        new_part = string_from("\n  new:\n");
        let mut i: usize = 0;
        proof {
            assert(pairs.take(0) =~= Seq::<(Seq<char>, AliasSpec)>::empty());
        }
        while i < entries.len()
            invariant
                i <= entries@.len(),
                entries@.map_values(|p: (AliasName, TomlAlias)| (p.0@, p.1@)) == pairs,
                new_part@ == alias_new_acc(pairs.take(i as int)),
            decreases entries@.len() - i,
        {
            let name = &entries[i].0;
            let alias = &entries[i].1;
            push_str(&mut new_part, "    ");
            push_str(&mut new_part, name.as_str());
            push_str(&mut new_part, " \u{2192} ");
            push_str(&mut new_part, alias.command());
            push_str(&mut new_part, "\n");
            proof {
                assert(pairs.take(i + 1).drop_last() =~= pairs.take(i as int));
                assert(pairs.take(i + 1).last() == pairs[i as int]);
                assert(pairs[i as int] == (name@, alias@));
            }
            i = i + 1;
        }
        proof {
            assert(pairs.take(entries@.len() as int) =~= pairs);
        }
    }
    push_str(&mut out, new_part.as_str());
    let n = result.conflicts.len();
    let mut conf_part = String::new();
    if n > 0 {
        conf_part = conflict_head_text(n);
        let mut i: usize = 0;
        proof {
            assert(cs.take(0) =~= Seq::<(Seq<char>, AliasSpec, AliasSpec)>::empty());
        }
        while i < n
            invariant
                n == cs.len(),
                i <= n,
                cs == result.conflicts@.map_values(|c: AliasConflict| c@),
                conf_part@ == alias_conflicts_acc(cs.take(i as int), n as nat),
            decreases n - i,
        {
            let block = alias_conflict_text(&result.conflicts[i]);
            push_str(&mut conf_part, block.as_str());
            proof {
                assert(cs.take(i + 1).drop_last() =~= cs.take(i as int));
                assert(cs.take(i + 1).last() == result.conflicts@[i as int]@);
            }
            i = i + 1;
        }
        proof {
            assert(cs.take(n as int) =~= cs);
        }
    }
    push_str(&mut out, conf_part.as_str());
    proof {
        if entries@.len() == 0 {
            assert(new_part@ =~= Seq::<char>::empty());
        }
        if n == 0 {
            assert(conf_part@ =~= Seq::<char>::empty());
        }
    }
    out
}

// ── variables ───────────────────────────────────────────────────────────

/// The header line of a variable summary.
pub open spec fn var_summary_head(scope: Seq<char>, total: nat) -> Seq<char> {
    "Importing variables into \""@ + scope + "\" ("@ + decimal(total) + " entries)\n"@
}

/// The `new:` list over the new variables in order.
pub open spec fn var_new_acc(pairs: Seq<(Seq<char>, Seq<char>)>) -> Seq<char>
    decreases pairs.len(),
{
    if pairs.len() == 0 {
        "\n  new:\n"@
    } else {
        var_new_acc(pairs.drop_last()) + "    "@ + pairs.last().0 + " \u{2192} "@ + pairs.last().1
            + "\n"@
    }
}

/// The lines for one variable conflict.
pub open spec fn var_conflict_block(c: (Seq<char>, Seq<char>, Seq<char>)) -> Seq<char> {
    "\n    "@ + c.0 + ":\n"@ + "      - "@ + c.1 + "\n"@ + "      + "@ + c.2 + "\n"@
}

/// The conflict list over the conflicts in order.
pub open spec fn var_conflicts_acc(cs: Seq<(Seq<char>, Seq<char>, Seq<char>)>, n: nat) -> Seq<char>
    decreases cs.len(),
{
    if cs.len() == 0 {
        conflict_head(n)
    } else {
        var_conflicts_acc(cs.drop_last(), n) + var_conflict_block(cs.last())
    }
}

/// The full import summary for the variables of one scope.
pub open spec fn var_summary(
    scope: Seq<char>,
    new: Seq<(Seq<char>, Seq<char>)>,
    cs: Seq<(Seq<char>, Seq<char>, Seq<char>)>,
) -> Seq<char> {
    var_summary_head(scope, new.len() + cs.len()) + (if new.len() == 0 {
        Seq::empty()
    } else {
        var_new_acc(new)
    }) + (if cs.len() == 0 {
        Seq::empty()
    } else {
        var_conflicts_acc(cs, cs.len())
    })
}

fn var_conflict_text(c: &VarConflict) -> (r: String)
    ensures
        r@ == var_conflict_block(c@),
{
    let mut s = string_from("\n    ");
    push_str(&mut s, c.name.as_str());
    push_str(&mut s, ":\n");
    push_str(&mut s, "      - ");
    push_str(&mut s, c.current.as_str());
    push_str(&mut s, "\n");
    push_str(&mut s, "      + ");
    push_str(&mut s, c.incoming.as_str());
    push_str(&mut s, "\n");
    s
}

/// The import summary for one scope's variables.
pub fn render_import_summary_vars(scope_name: &str, result: &VarMergeResult) -> (r: String)
    requires
        result.new_vars@.len() + result.conflicts@.len() <= usize::MAX,
    ensures
        r@ == var_summary(
            scope_name@,
            result.new_vars.pairs(),
            result.conflicts@.map_values(|c: VarConflict| c@),
        ),
{
    let entries = result.new_vars.entries();
    let ghost pairs = result.new_vars.pairs();
    let ghost cs = result.conflicts@.map_values(|c: VarConflict| c@);
    let total = result.new_vars.len() + result.conflicts.len();
    let mut out = string_from("Importing variables into \"");
    push_str(&mut out, scope_name);
    push_str(&mut out, "\" (");
    let t = decimal_string(total);
    push_str(&mut out, t.as_str());
    push_str(&mut out, " entries)\n");
    let mut new_part = String::new();
    if entries.len() > 0 {
        new_part = string_from("\n  new:\n");
        let mut i: usize = 0;
        proof {
            assert(pairs.take(0) =~= Seq::<(Seq<char>, Seq<char>)>::empty());
        }
        while i < entries.len()
            invariant
                i <= entries@.len(),
                entries@.map_values(|p: (VarName, String)| (p.0@, p.1@)) == pairs,
                new_part@ == var_new_acc(pairs.take(i as int)),
            decreases entries@.len() - i,
        {
            let name = &entries[i].0;
            let value = &entries[i].1;
            push_str(&mut new_part, "    ");
            push_str(&mut new_part, name.as_str());
            push_str(&mut new_part, " \u{2192} ");
            push_str(&mut new_part, value.as_str());
            push_str(&mut new_part, "\n");
            proof {
                assert(pairs.take(i + 1).drop_last() =~= pairs.take(i as int));
                assert(pairs.take(i + 1).last() == pairs[i as int]);
                assert(pairs[i as int] == (name@, value@));
            }
            i = i + 1;
        }
        proof {
            assert(pairs.take(entries@.len() as int) =~= pairs);
        }
    }
    push_str(&mut out, new_part.as_str());
    let n = result.conflicts.len();
    let mut conf_part = String::new();
    if n > 0 {
        conf_part = conflict_head_text(n);
        let mut i: usize = 0;
        proof {
            assert(cs.take(0) =~= Seq::<(Seq<char>, Seq<char>, Seq<char>)>::empty());
        }
        while i < n
            invariant
                n == cs.len(),
                i <= n,
                cs == result.conflicts@.map_values(|c: VarConflict| c@),
                conf_part@ == var_conflicts_acc(cs.take(i as int), n as nat),
            decreases n - i,
        {
            let block = var_conflict_text(&result.conflicts[i]);
            push_str(&mut conf_part, block.as_str());
            proof {
                assert(cs.take(i + 1).drop_last() =~= cs.take(i as int));
                assert(cs.take(i + 1).last() == result.conflicts@[i as int]@);
            }
            i = i + 1;
        }
        proof {
            assert(cs.take(n as int) =~= cs);
        }
    }
    push_str(&mut out, conf_part.as_str());
    proof {
        if entries@.len() == 0 {
            assert(new_part@ =~= Seq::<char>::empty());
        }
        if n == 0 {
            assert(conf_part@ =~= Seq::<char>::empty());
        }
    }
    out
}

// ── subcommands ─────────────────────────────────────────────────────────

/// The header line of a subcommand summary.
pub open spec fn sub_summary_head(scope: Seq<char>, total: nat) -> Seq<char> {
    "Importing subcommands into \""@ + scope + "\" ("@ + decimal(total) + " entries)\n"@
}

/// The `new:` list over the new subcommand aliases in order.
pub open spec fn sub_new_acc(pairs: Seq<(Seq<char>, SubSpec)>) -> Seq<char>
    decreases pairs.len(),
{
    if pairs.len() == 0 {
        "\n  new:\n"@
    } else {
        sub_new_acc(pairs.drop_last()) + "    "@ + pairs.last().0 + " \u{2192} "@ + join_spec(
            pairs.last().1.expansions,
            " "@,
        ) + "\n"@
    }
}

/// The lines for one subcommand conflict.
pub open spec fn sub_conflict_block(c: (Seq<char>, SubSpec, SubSpec)) -> Seq<char> {
    "\n    "@ + c.0 + ":\n"@ + (if c.1.expansions != c.2.expansions {
        "      - "@ + join_spec(c.1.expansions, " "@) + "\n"@ + "      + "@ + join_spec(
            c.2.expansions,
            " "@,
        ) + "\n"@
    } else {
        Seq::empty()
    }) + desc_lines(c.1.description, c.2.description)
}

/// The conflict list over the conflicts in order.
pub open spec fn sub_conflicts_acc(cs: Seq<(Seq<char>, SubSpec, SubSpec)>, n: nat) -> Seq<char>
    decreases cs.len(),
{
    if cs.len() == 0 {
        conflict_head(n)
    } else {
        sub_conflicts_acc(cs.drop_last(), n) + sub_conflict_block(cs.last())
    }
}

/// The full import summary for the subcommand aliases of one scope.
pub open spec fn sub_summary(
    scope: Seq<char>,
    new: Seq<(Seq<char>, SubSpec)>,
    cs: Seq<(Seq<char>, SubSpec, SubSpec)>,
) -> Seq<char> {
    sub_summary_head(scope, new.len() + cs.len()) + (if new.len() == 0 {
        Seq::empty()
    } else {
        sub_new_acc(new)
    }) + (if cs.len() == 0 {
        Seq::empty()
    } else {
        sub_conflicts_acc(cs, cs.len())
    })
}

fn expansion_lines_text(cur: &TomlSubcommand, inc: &TomlSubcommand) -> (r: String)
    ensures
        r@ == (if cur@.expansions != inc@.expansions {
            "      - "@ + join_spec(cur@.expansions, " "@) + "\n"@ + "      + "@ + join_spec(
                inc@.expansions,
                " "@,
            ) + "\n"@
        } else {
            Seq::empty()
        }),
{
    if strings_equal(cur.expansions(), inc.expansions()) {
        String::new()
    } else {
        let mut s = string_from("      - ");
        let a = join_strs(cur.expansions(), " ");
        push_str(&mut s, a.as_str());
        push_str(&mut s, "\n");
        push_str(&mut s, "      + ");
        let b = join_strs(inc.expansions(), " ");
        push_str(&mut s, b.as_str());
        push_str(&mut s, "\n");
        s
    }
}

fn sub_conflict_text(c: &SubcommandConflict) -> (r: String)
    ensures
        r@ == sub_conflict_block(c@),
{
    let mut s = string_from("\n    ");
    push_str(&mut s, c.key.as_str());
    push_str(&mut s, ":\n");
    let e = expansion_lines_text(&c.current, &c.incoming);
    push_str(&mut s, e.as_str());
    let d = desc_lines_text(c.current.description(), c.incoming.description());
    push_str(&mut s, d.as_str());
    s
}

fn sub_new_part(set: &crate::subcommand::SubcommandSet) -> (r: String)
    ensures
        r@ == (if set.pairs().len() == 0 {
            Seq::empty()
        } else {
            sub_new_acc(set.pairs())
        }),
{
    let entries = set.entries();
    let ghost pairs = set.pairs();
    if entries.len() == 0 {
        return String::new();
    }
    let mut new_part = string_from("\n  new:\n");
    let mut i: usize = 0;
    proof {
        assert(pairs.take(0) =~= Seq::<(Seq<char>, SubSpec)>::empty());
    }
    while i < entries.len()
        invariant
            i <= entries@.len(),
            entries@.map_values(|p: (String, TomlSubcommand)| (p.0@, p.1@)) == pairs,
            new_part@ == sub_new_acc(pairs.take(i as int)),
        decreases entries@.len() - i,
    {
        let key = &entries[i].0;
        let sub = &entries[i].1;
        push_str(&mut new_part, "    ");
        push_str(&mut new_part, key.as_str());
        push_str(&mut new_part, " \u{2192} ");
        let j = join_strs(sub.expansions(), " ");
        push_str(&mut new_part, j.as_str());
        push_str(&mut new_part, "\n");
        proof {
            assert(pairs.take(i + 1).drop_last() =~= pairs.take(i as int));
            assert(pairs.take(i + 1).last() == pairs[i as int]);
            assert(pairs[i as int] == (key@, sub@));
        }
        i = i + 1;
    }
    proof {
        assert(pairs.take(entries@.len() as int) =~= pairs);
    }
    new_part
}

fn sub_conflict_part(conflicts: &[SubcommandConflict]) -> (r: String)
    ensures
        r@ == (if conflicts@.len() == 0 {
            Seq::empty()
        } else {
            sub_conflicts_acc(conflicts@.map_values(|c: SubcommandConflict| c@), conflicts@.len())
        }),
{
    let ghost cs = conflicts@.map_values(|c: SubcommandConflict| c@);
    let n = conflicts.len();
    if n == 0 {
        return String::new();
    }
    let mut conf_part = conflict_head_text(n);
    let mut i: usize = 0;
    proof {
        assert(cs.take(0) =~= Seq::<(Seq<char>, SubSpec, SubSpec)>::empty());
    }
    while i < n
        invariant
            n == cs.len(),
            i <= n,
            cs == conflicts@.map_values(|c: SubcommandConflict| c@),
            conf_part@ == sub_conflicts_acc(cs.take(i as int), n as nat),
        decreases n - i,
    {
        let block = sub_conflict_text(&conflicts[i]);
        push_str(&mut conf_part, block.as_str());
        proof {
            assert(cs.take(i + 1).drop_last() =~= cs.take(i as int));
            assert(cs.take(i + 1).last() == conflicts@[i as int]@);
        }
        i = i + 1;
    }
    proof {
        assert(cs.take(n as int) =~= cs);
    }
    conf_part
}

/// The import summary for one scope's subcommand aliases.
pub fn render_import_summary_subcommands(scope_name: &str, result: &SubcommandMergeResult) -> (r:
    String)
    requires
        result.new_subcommands@.len() + result.conflicts@.len() <= usize::MAX,
    ensures
        r@ == sub_summary(
            scope_name@,
            result.new_subcommands.pairs(),
            result.conflicts@.map_values(|c: SubcommandConflict| c@),
        ),
{
    let total = result.new_subcommands.len() + result.conflicts.len();
    let mut out = string_from("Importing subcommands into \"");
    push_str(&mut out, scope_name);
    push_str(&mut out, "\" (");
    let t = decimal_string(total);
    push_str(&mut out, t.as_str());
    push_str(&mut out, " entries)\n");
    let new_part = sub_new_part(&result.new_subcommands);
    push_str(&mut out, new_part.as_str());
    let conf_part = sub_conflict_part(result.conflicts.as_slice());
    push_str(&mut out, conf_part.as_str());
    out
}

} // verus!

//! Shell syntax for the lines the hook emits.
use vstd::prelude::*;

use crate::alias::AliasEntry;
use crate::subcommand::{EntrySpec, SubcommandEntry};
use crate::text::{decimal, decimal_string, join_spec, join_strs, push_char, push_str, string_from, views};

verus! {

/// A supported shell.
#[derive(Debug, Clone, Copy, PartialEq, Eq)]
pub enum Shell {
    Fish,
    Zsh,
    Bash,
    Brush,
    PowerShell,
}

/// `s` with `\`, `"`, `$` and `` ` `` backslash-escaped for a double-quoted shell word.
pub open spec fn dq_escape(s: Seq<char>) -> Seq<char>
    decreases s.len(),
{
    if s.len() == 0 {
        Seq::empty()
    } else {
        let c = s.last();
        dq_escape(s.drop_last()) + (if c == '\\' || c == '"' || c == '$' || c == '`' {
            seq!['\\', c]
        } else {
            seq![c]
        })
    }
}

/// Escapes text for a double-quoted shell word.
pub fn dq_escape_text(s: &str) -> (r: String)
    ensures
        r@ == dq_escape(s@),
{
    let n = s.unicode_len();
    let mut out = String::new();
    let mut i: usize = 0;
    proof {
        assert(s@.take(0) =~= Seq::<char>::empty());
    }
    while i < n
        invariant
            n == s@.len(),
            i <= n,
            out@ == dq_escape(s@.take(i as int)),
        decreases n - i,
    {
        let c = s.get_char(i);
        proof {
            assert(s@.take(i + 1).drop_last() =~= s@.take(i as int));
            assert(s@.take(i + 1).last() == c);
        }
        let ghost before = out@;
        if c == '\\' || c == '"' || c == '$' || c == '`' {
            push_char(&mut out, '\\');
            push_char(&mut out, c);
            assert(out@ =~= before + seq!['\\', c]);
        } else {
            push_char(&mut out, c);
            assert(out@ =~= before + seq![c]);
        }
        i = i + 1;
    }
    assert(s@.take(n as int) =~= s@);
    out
}

/// The line removing a shell-level alias or function.
pub open spec fn unalias_line(sh: Shell, name: Seq<char>) -> Seq<char> {
    match sh {
        Shell::Fish => "functions -e "@ + name,
        Shell::PowerShell => "Remove-Item -Path Alias:"@ + name + " -ErrorAction SilentlyContinue"@,
        _ => "unalias "@ + name + " 2>/dev/null; unset -f "@ + name + " 2>/dev/null"@,
    }
}

/// The line printing a message.
pub open spec fn echo_line(sh: Shell, msg: Seq<char>) -> Seq<char> {
    match sh {
        Shell::PowerShell => "Write-Host \""@ + dq_escape(msg) + "\""@,
        _ => "echo \""@ + dq_escape(msg) + "\""@,
    }
}

/// The line exporting an environment variable.
pub open spec fn set_env_line(sh: Shell, key: Seq<char>, value: Seq<char>) -> Seq<char> {
    match sh {
        Shell::Fish => "set -gx "@ + key + " \""@ + dq_escape(value) + "\""@,
        Shell::PowerShell => "$env:"@ + key + " = \""@ + dq_escape(value) + "\""@,
        _ => "export "@ + key + "=\""@ + dq_escape(value) + "\""@,
    }
}

/// The line removing an environment variable.
pub open spec fn unset_env_line(sh: Shell, key: Seq<char>) -> Seq<char> {
    match sh {
        Shell::Fish => "set -e "@ + key,
        Shell::PowerShell => "Remove-Item Env:"@ + key + " -ErrorAction SilentlyContinue"@,
        _ => "unset "@ + key,
    }
}

/// The line defining an alias.
pub open spec fn alias_line(sh: Shell, name: Seq<char>, command: Seq<char>) -> Seq<char> {
    match sh {
        Shell::Fish => "alias "@ + name + " \""@ + dq_escape(command) + "\""@,
        Shell::PowerShell => "function "@ + name + " { "@ + command + " @args }"@,
        _ => "alias "@ + name + "=\""@ + dq_escape(command) + "\""@,
    }
}

/// The branch of a wrapper for one subcommand entry: matched on its first
/// short word, dropping as many arguments as it has short words.
pub open spec fn wrapper_branch(sh: Shell, base: Seq<char>, e: EntrySpec) -> Seq<char> {
    let first = if e.shorts.len() > 0 {
        e.shorts[0]
    } else {
        Seq::empty()
    };
    let shift = if e.shorts.len() <= 1 {
        "shift"@
    } else {
        "shift "@ + decimal(e.shorts.len())
    };
    match sh {
        Shell::Fish => "\n    case "@ + first + "\n      "@ + base + " "@ + join_spec(e.longs, " "@)
            + " $argv["@ + decimal(e.shorts.len() + 1) + "..-1]"@,
        Shell::PowerShell => "\n    '"@ + first + "' { "@ + base + " "@ + join_spec(e.longs, " "@)
            + " @($args | Select-Object -Skip "@ + decimal(e.shorts.len()) + "); return }"@,
        _ => "\n    "@ + first + ") "@ + shift + "; "@ + base + " "@ + join_spec(e.longs, " "@)
            + " \"$@\" ;;"@,
    }
}

/// The branches of a wrapper.
pub open spec fn wrapper_branches(sh: Shell, base: Seq<char>, es: Seq<EntrySpec>) -> Seq<char>
    decreases es.len(),
{
    if es.len() == 0 {
        Seq::empty()
    } else {
        wrapper_branches(sh, base, es.drop_last()) + wrapper_branch(sh, base, es.last())
    }
}

/// The function dispatching a program's subcommand aliases, everything else
/// going to `base`.
pub open spec fn wrapper_text(sh: Shell, program: Seq<char>, base: Seq<char>, es: Seq<EntrySpec>) -> Seq<
    char,
> {
    match sh {
        Shell::Fish => "function "@ + program + "\n  switch $argv[1]"@ + wrapper_branches(sh, base, es)
            + "\n    case '*'\n      "@ + base + " $argv\n  end\nend"@,
        Shell::PowerShell => "function "@ + program + " {\n  switch ($args[0]) {"@ + wrapper_branches(
            sh,
            base,
            es,
        ) + "\n  }\n  "@ + base + " @args\n}"@,
        _ => program + "() {\n  case \"$1\" in"@ + wrapper_branches(sh, base, es) + "\n    *) "@
            + base + " \"$@\" ;;\n  esac\n}"@,
    }
}

impl Shell {
    pub fn unalias(&self, name: &str) -> (r: String)
        ensures
            r@ == unalias_line(*self, name@),
    {
        match self {
            Shell::Fish => {
                let mut s = string_from("functions -e ");
                push_str(&mut s, name);
                s
            },
            Shell::PowerShell => {
                let mut s = string_from("Remove-Item -Path Alias:");
                push_str(&mut s, name);
                push_str(&mut s, " -ErrorAction SilentlyContinue");
                s
            },
            _ => {
                let mut s = string_from("unalias ");
                push_str(&mut s, name);
                push_str(&mut s, " 2>/dev/null; unset -f ");
                push_str(&mut s, name);
                push_str(&mut s, " 2>/dev/null");
                s
            },
        }
    }

    pub fn echo(&self, msg: &str) -> (r: String)
        ensures
            r@ == echo_line(*self, msg@),
    {
        let mut s = match self {
            Shell::PowerShell => string_from("Write-Host \""),
            _ => string_from("echo \""),
        };
        let e = dq_escape_text(msg);
        push_str(&mut s, e.as_str());
        push_str(&mut s, "\"");
        s
    }

    pub fn set_env(&self, key: &str, value: &str) -> (r: String)
        ensures
            r@ == set_env_line(*self, key@, value@),
    {
        let e = dq_escape_text(value);
        match self {
            Shell::Fish => {
                let mut s = string_from("set -gx ");
                push_str(&mut s, key);
                push_str(&mut s, " \"");
                push_str(&mut s, e.as_str());
                push_str(&mut s, "\"");
                s
            },
            Shell::PowerShell => {
                let mut s = string_from("$env:");
                push_str(&mut s, key);
                push_str(&mut s, " = \"");
                push_str(&mut s, e.as_str());
                push_str(&mut s, "\"");
                s
            },
            _ => {
                let mut s = string_from("export ");
                push_str(&mut s, key);
                push_str(&mut s, "=\"");
                push_str(&mut s, e.as_str());
                push_str(&mut s, "\"");
                s
            },
        }
    }

    pub fn unset_env(&self, key: &str) -> (r: String)
        ensures
            r@ == unset_env_line(*self, key@),
    {
        match self {
            Shell::Fish => {
                let mut s = string_from("set -e ");
                push_str(&mut s, key);
                s
            },
            Shell::PowerShell => {
                let mut s = string_from("Remove-Item Env:");
                push_str(&mut s, key);
                push_str(&mut s, " -ErrorAction SilentlyContinue");
                s
            },
            _ => {
                let mut s = string_from("unset ");
                push_str(&mut s, key);
                s
            },
        }
    }

    pub fn alias(&self, entry: &AliasEntry) -> (r: String)
        ensures
            r@ == alias_line(*self, entry.name@, entry.command@),
    {
        match self {
            Shell::Fish => {
                let mut s = string_from("alias ");
                push_str(&mut s, entry.name);
                push_str(&mut s, " \"");
                let e = dq_escape_text(entry.command);
                push_str(&mut s, e.as_str());
                push_str(&mut s, "\"");
                s
            },
            Shell::PowerShell => {
                let mut s = string_from("function ");
                push_str(&mut s, entry.name);
                push_str(&mut s, " { ");
                push_str(&mut s, entry.command);
                push_str(&mut s, " @args }");
                s
            },
            _ => {
                let mut s = string_from("alias ");
                push_str(&mut s, entry.name);
                push_str(&mut s, "=\"");
                let e = dq_escape_text(entry.command);
                push_str(&mut s, e.as_str());
                push_str(&mut s, "\"");
                s
            },
        }
    }

    fn branch(&self, base: &str, e: &SubcommandEntry) -> (r: String)
        ensures
            r@ == wrapper_branch(*self, base@, e@),
    {
        let n = e.short_subcommands.len();
        let first = if n > 0 {
            e.short_subcommands[0].clone()
        } else {
            String::new()
        };
        let longs = join_strs(e.long_subcommands.as_slice(), " ");
        match self {
            Shell::Fish => {
                let mut s = string_from("\n    case ");
                push_str(&mut s, first.as_str());
                push_str(&mut s, "\n      ");
                push_str(&mut s, base);
                push_str(&mut s, " ");
                push_str(&mut s, longs.as_str());
                push_str(&mut s, " $argv[");
                let d = crate::text::decimal_succ_string(n);
                push_str(&mut s, d.as_str());
                push_str(&mut s, "..-1]");
                s
            },
            Shell::PowerShell => {
                let mut s = string_from("\n    '");
                push_str(&mut s, first.as_str());
                push_str(&mut s, "' { ");
                push_str(&mut s, base);
                push_str(&mut s, " ");
                push_str(&mut s, longs.as_str());
                push_str(&mut s, " @($args | Select-Object -Skip ");
                let d = decimal_string(n);
                push_str(&mut s, d.as_str());
                push_str(&mut s, "); return }");
                s
            },
            _ => {
                let mut s = string_from("\n    ");
                push_str(&mut s, first.as_str());
                push_str(&mut s, ") ");
                let shift = if n <= 1 {
                    string_from("shift")
                } else {
                    let mut t = string_from("shift ");
                    let d = decimal_string(n);
                    push_str(&mut t, d.as_str());
                    t
                };
                push_str(&mut s, shift.as_str());
                push_str(&mut s, "; ");
                push_str(&mut s, base);
                push_str(&mut s, " ");
                push_str(&mut s, longs.as_str());
                push_str(&mut s, " \"$@\" ;;");
                s
            },
        }
    }

    /// The function dispatching `program`'s subcommand aliases.
    pub fn subcommand_wrapper(&self, program: &str, base_cmd: &str, entries: &[SubcommandEntry]) -> (r:
        String)
        ensures
            r@ == wrapper_text(*self, program@, base_cmd@, entries@.map_values(|e: SubcommandEntry| e@)),
    {
        let ghost es = entries@.map_values(|e: SubcommandEntry| e@);
        let mut branches = String::new();
        let mut i: usize = 0;
        proof {
            assert(es.take(0) =~= Seq::<EntrySpec>::empty());
        }
        while i < entries.len()
            invariant
                i <= entries@.len(),
                es == entries@.map_values(|e: SubcommandEntry| e@),
                branches@ == wrapper_branches(*self, base_cmd@, es.take(i as int)),
            decreases entries@.len() - i,
        {
            let b = self.branch(base_cmd, &entries[i]);
            push_str(&mut branches, b.as_str());
            proof {
                assert(es.take(i + 1).drop_last() =~= es.take(i as int));
                assert(es.take(i + 1).last() == entries@[i as int]@);
            }
            i = i + 1;
        }
        proof {
            assert(es.take(entries@.len() as int) =~= es);
        }
        match self {
            Shell::Fish => {
                let mut s = string_from("function ");
                push_str(&mut s, program);
                push_str(&mut s, "\n  switch $argv[1]");
                push_str(&mut s, branches.as_str());
                push_str(&mut s, "\n    case '*'\n      ");
                push_str(&mut s, base_cmd);
                push_str(&mut s, " $argv\n  end\nend");
                s
            },
            Shell::PowerShell => {
                let mut s = string_from("function ");
                push_str(&mut s, program);
                push_str(&mut s, " {\n  switch ($args[0]) {");
                push_str(&mut s, branches.as_str());
                push_str(&mut s, "\n  }\n  ");
                push_str(&mut s, base_cmd);
                push_str(&mut s, " @args\n}");
                s
            },
            _ => {
                let mut s = string_from(program);
                push_str(&mut s, "() {\n  case \"$1\" in");
                push_str(&mut s, branches.as_str());
                push_str(&mut s, "\n    *) ");
                push_str(&mut s, base_cmd);
                push_str(&mut s, " \"$@\" ;;\n  esac\n}");
                s
            },
        }
    }
}

} // verus!

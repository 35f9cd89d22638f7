//! The notice for a project `.aliases` file in scope but not loaded.
use vstd::prelude::*;

use crate::text::{join_spec, push_str, string_from};

verus! {

/// A project file in scope that is not loaded because of its trust state.
#[derive(Debug, Clone, PartialEq, Eq)]
pub struct ProjectTrustNotice {
    pub path: String,
    pub reason: ProjectTrustReason,
}

/// Why the project file is not loaded.
#[derive(Debug, Clone, Copy, PartialEq, Eq)]
pub enum ProjectTrustReason {
    /// Never reviewed.
    Unknown,
    /// Declined before.
    Untrusted,
    /// Changed since it was trusted.
    Tampered,
}

/// The wording of a reason.
pub open spec fn reason_label(r: ProjectTrustReason) -> Seq<char> {
    match r {
        ProjectTrustReason::Unknown => "not yet reviewed"@,
        ProjectTrustReason::Untrusted => "previously untrusted"@,
        ProjectTrustReason::Tampered => "modified since last trusted"@,
    }
}

impl ProjectTrustReason {
    pub fn label(self) -> (r: &'static str)
        ensures
            r@ == reason_label(self),
    {
        match self {
            ProjectTrustReason::Unknown => "not yet reviewed",
            ProjectTrustReason::Untrusted => "previously untrusted",
            ProjectTrustReason::Tampered => "modified since last trusted",
        }
    }
}

/// The names, each in backticks, joined by `, `.
pub open spec fn ticked(names: Seq<Seq<char>>) -> Seq<Seq<char>> {
    names.map_values(|n: Seq<char>| "`"@ + n + "`"@)
}

/// The list of table names shown in the notice.
pub open spec fn name_list(names: Seq<Seq<char>>) -> Seq<char> {
    if names.len() == 0 {
        "(the table is currently empty)"@
    } else {
        join_spec(ticked(names), ", "@)
    }
}

/// The text before the path.
pub open spec fn notice_head() -> Seq<char> {
    "## Project aliases (not loaded)\n\n> [!WARNING]\n> Your view of aliases here is incomplete. The table below is missing the project file's entries, any of which can shadow what you see.\n\nA project `.aliases` file at `"@
}

/// The text between the reason and the name list.
pub open spec fn notice_middle() -> Seq<char> {
    "). Its entries shadow every alias of the same name at priority 0 \u{2014} above all profiles and globals \u{2014} so any of these table names, plus any the project file may add, could resolve to a different command here:\n\n"@
}

/// The text after the name list.
pub open spec fn notice_tail() -> Seq<char> {
    "\n\n**At session start, ask the user once** \u{2014} unless they have already declined trust in this session, in which case skip this whole section:\n\n> \"A project `.aliases` file here isn't trusted yet. Run `am trust` in your shell \u{2014} it'll show you the contents and ask for your confirmation.\"\n\nThen wait for their answer before acting on any alias.\n\n**Hand-off rules**\n\n- Don't read `.aliases` yourself \u{2014} `am trust` is the review surface; reading it shortcuts the interactive flow.\n- Don't run `am trust` in a subshell \u{2014} it's interactive and hangs on the prompt. Run it in the user's terminal.\n"@
}

/// The whole notice, or nothing without a notice.
pub open spec fn notice_text(notice: Option<ProjectTrustNotice>, names: Seq<Seq<char>>) -> Seq<char> {
    match notice {
        None => Seq::empty(),
        Some(n) => notice_head() + n.path@ + "` is in scope but not loaded ("@ + reason_label(n.reason)
            + notice_middle() + name_list(names) + notice_tail(),
    }
}

fn name_list_text(alias_names: &[&str]) -> (r: String)
    ensures
        r@ == name_list(alias_names@.map_values(|s: &str| s@)),
{
    let ghost names = alias_names@.map_values(|s: &str| s@);
    if alias_names.len() == 0 {
        return string_from("(the table is currently empty)");
    }
    let mut out = String::new();
    let mut i: usize = 0;
    proof {
        assert(ticked(names.take(0)) =~= Seq::<Seq<char>>::empty());
    }
    while i < alias_names.len()
        invariant
            i <= alias_names@.len(),
            names == alias_names@.map_values(|s: &str| s@),
            out@ == join_spec(ticked(names.take(i as int)), ", "@),
        decreases alias_names@.len() - i,
    {
        let ghost before = ticked(names.take(i as int));
        let ghost after = ticked(names.take(i + 1));
        proof {
            assert(after.drop_last() =~= before);
            assert(after.last() == "`"@ + alias_names@[i as int]@ + "`"@);
            if i == 0 {
                assert(before =~= Seq::<Seq<char>>::empty());
            }
        }
        if i > 0 {
            push_str(&mut out, ", ");
        }
        let mut t = string_from("`");
        push_str(&mut t, alias_names[i]);
        push_str(&mut t, "`");
        push_str(&mut out, t.as_str());
        proof {
            assert(out@ =~= join_spec(after, ", "@));
        }
        i = i + 1;
    }
    proof {
        assert(names.take(alias_names@.len() as int) =~= names);
    }
    out
}

/// The `## Project aliases (not loaded)` section: where the file is, why it
/// is not loaded, every name of the current table, and how to ask the user
/// to review it. Empty without a notice.
pub fn render_project_trust_notice(notice: Option<&ProjectTrustNotice>, alias_names: &[&str]) -> (r:
    String)
    ensures
        r@ == notice_text(
            match notice {
                Some(n) => Some(*n),
                None => None,
            },
            alias_names@.map_values(|s: &str| s@),
        ),
{
    let n = match notice {
        None => {
            return String::new();
        },
        Some(n) => n,
    };
    let mut out = string_from("## Project aliases (not loaded)\n\n> [!WARNING]\n> Your view of aliases here is incomplete. The table below is missing the project file's entries, any of which can shadow what you see.\n\nA project `.aliases` file at `");
    push_str(&mut out, n.path.as_str());
    push_str(&mut out, "` is in scope but not loaded (");
    push_str(&mut out, n.reason.label());
    push_str(&mut out, "). Its entries shadow every alias of the same name at priority 0 \u{2014} above all profiles and globals \u{2014} so any of these table names, plus any the project file may add, could resolve to a different command here:\n\n");
    let list = name_list_text(alias_names);
    push_str(&mut out, list.as_str());
    push_str(&mut out, "\n\n**At session start, ask the user once** \u{2014} unless they have already declined trust in this session, in which case skip this whole section:\n\n> \"A project `.aliases` file here isn't trusted yet. Run `am trust` in your shell \u{2014} it'll show you the contents and ask for your confirmation.\"\n\nThen wait for their answer before acting on any alias.\n\n**Hand-off rules**\n\n- Don't read `.aliases` yourself \u{2014} `am trust` is the review surface; reading it shortcuts the interactive flow.\n- Don't run `am trust` in a subshell \u{2014} it's interactive and hangs on the prompt. Run it in the user's terminal.\n");
    out
}

} // verus!

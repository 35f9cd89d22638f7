//! The snapshot's opening: usage rules and format notes.
use vstd::prelude::*;

use super::trust_notice::ProjectTrustNotice;
use crate::precedence::OriginScope;
use crate::text::{push_str, string_from};

verus! {

/// The precedence chain, highest first.
#[derive(Debug, Clone)]
pub struct PrecedenceChain {
    pub layers: Vec<ChainLayer>,
}

/// One layer of the chain; profiles carry their 1-based priority.
#[derive(Debug, Clone)]
pub struct ChainLayer {
    pub scope: OriginScope,
    pub priority: Option<usize>,
}

/// The usage rules, from the line after the header through rule 5.
pub open spec fn preamble_rules() -> Seq<char> {
    "#\n# ## How to use this snapshot\n#\n# When the user mentions a name from the `Aliases` table below in any context \u{2014}\n# running a command, suggesting one, asking what it does \u{2014} treat the `expands to`\n# value as the canonical form.\n#\n# 1. Recognise aliases by name match. If the user's input contains a token that\n#    matches a `name` from the table \u{2014} including multi-word names with a space,\n#    like `git pl` \u{2014} it is an alias. Expand it before running.\n#\n# 2. Subcommand aliases are deceptive. A name like `git pl` looks like a real\n#    git subcommand but is not. Running `git pl` verbatim in a subshell fails\n#    with `git: 'pl' is not a git command`. Always run the value from\n#    `expands to` (`git pull --rebase`), never the alias text.\n#\n# 3. Recover from `command not found` failures. If a shell command fails because\n#    the name is unknown, check this table \u{2014} the user's shell sees the alias\n#    but your subshell does not.\n#\n# 4. In chat, the user's vocabulary is fine. When suggesting commands in\n#    conversation, the short form (`git cm \"msg\"`) matches the user's mental\n#    model. When *running* it in a subshell, use the canonical form.\n#\n# 5. Aliases reveal user preference \u{2014} match them by intent, not just by name.\n#    - If the user describes an action in plain language (\"test the code\",\n#      \"format\", \"install\") rather than typing an alias name, scan the\n#      `expands to` column for a command that covers the intent and run\n#      *that* exact form. The flags are deliberate (`cargo test\n#      --all-features --verbose`, not bare `cargo test`); reaching for a\n#      vanilla command throws away the user's choices.\n"@
}

/// The extra rule-5 bullet shown when an untrusted project file is in scope.
pub open spec fn trust_bullet() -> Seq<char> {
    "#    - A project `.aliases` file in scope but untrusted (see\n#      `## Project aliases (not loaded)` below) is the same signal \u{2014} the\n#      user has even more refined preferences for this directory, you\n#      just can't see them yet. Treat that as added weight on the\n#      `am trust` ask.\n"@
}

/// The format notes closing the preamble.
pub open spec fn preamble_format() -> Seq<char> {
    "#\n# ## Format\n#\n# Templates: {{N}} is a positional placeholder (1-indexed; `tag v1.0` expands {{1}} \u{2192} `v1.0`).\n# Variables: {{name}} tokens in alias values are already substituted to their final form \u{2014} no work needed.\n"@
}

/// The preamble for a working directory, with the trust bullet when a
/// project file is in scope but not loaded.
pub open spec fn preamble_text(cwd: Seq<char>, notice: bool) -> Seq<char> {
    "# amoxide aliases (active set, cwd: "@ + cwd + ")\n"@ + preamble_rules() + (if notice {
        trust_bullet()
    } else {
        ""@
    }) + preamble_format()
}

/// Renders the preamble: the working directory, the usage rules, and the
/// format notes. The chain is not shown: precedence is already resolved in
/// the tables that follow.
pub fn render_preamble(
    cwd: &str,
    chain: &PrecedenceChain,
    project_trust_notice: Option<&ProjectTrustNotice>,
) -> (r: String)
    ensures
        r@ == preamble_text(cwd@, project_trust_notice is Some),
{
    let mut out = string_from("# amoxide aliases (active set, cwd: ");
    push_str(&mut out, cwd);
    push_str(&mut out, ")\n");
    push_str(&mut out, "#\n# ## How to use this snapshot\n#\n# When the user mentions a name from the `Aliases` table below in any context \u{2014}\n# running a command, suggesting one, asking what it does \u{2014} treat the `expands to`\n# value as the canonical form.\n#\n# 1. Recognise aliases by name match. If the user's input contains a token that\n#    matches a `name` from the table \u{2014} including multi-word names with a space,\n#    like `git pl` \u{2014} it is an alias. Expand it before running.\n#\n# 2. Subcommand aliases are deceptive. A name like `git pl` looks like a real\n#    git subcommand but is not. Running `git pl` verbatim in a subshell fails\n#    with `git: 'pl' is not a git command`. Always run the value from\n#    `expands to` (`git pull --rebase`), never the alias text.\n#\n# 3. Recover from `command not found` failures. If a shell command fails because\n#    the name is unknown, check this table \u{2014} the user's shell sees the alias\n#    but your subshell does not.\n#\n# 4. In chat, the user's vocabulary is fine. When suggesting commands in\n#    conversation, the short form (`git cm \"msg\"`) matches the user's mental\n#    model. When *running* it in a subshell, use the canonical form.\n#\n# 5. Aliases reveal user preference \u{2014} match them by intent, not just by name.\n#    - If the user describes an action in plain language (\"test the code\",\n#      \"format\", \"install\") rather than typing an alias name, scan the\n#      `expands to` column for a command that covers the intent and run\n#      *that* exact form. The flags are deliberate (`cargo test\n#      --all-features --verbose`, not bare `cargo test`); reaching for a\n#      vanilla command throws away the user's choices.\n");
    if project_trust_notice.is_some() {
        push_str(&mut out, "#    - A project `.aliases` file in scope but untrusted (see\n#      `## Project aliases (not loaded)` below) is the same signal \u{2014} the\n#      user has even more refined preferences for this directory, you\n#      just can't see them yet. Treat that as added weight on the\n#      `am trust` ask.\n");
    } else {
        push_str(&mut out, "");
    }
    push_str(&mut out, "#\n# ## Format\n#\n# Templates: {{N}} is a positional placeholder (1-indexed; `tag v1.0` expands {{1}} \u{2192} `v1.0`).\n# Variables: {{name}} tokens in alias values are already substituted to their final form \u{2014} no work needed.\n");
    out
}

} // verus!

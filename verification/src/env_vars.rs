//! Names of the environment variables the shell integration uses.
use vstd::prelude::*;

verus! {

/// Effective alias state in the shell: `name|short_hash` entries, comma separated.
pub const AM_ALIASES: &'static str = "_AM_ALIASES";

/// Effective subcommand-key state in the shell: `name|short_hash` entries.
pub const AM_SUBCOMMANDS: &'static str = "_AM_SUBCOMMANDS";

/// The project `.aliases` file last seen, to avoid repeating warnings.
pub const AM_PROJECT_PATH: &'static str = "_AM_PROJECT_PATH";

/// Set while scanning the shell, to prevent recursive invocation.
pub const AM_DETECTING_ALIASES: &'static str = "_AM_DETECTING_ALIASES";

/// The project aliases loaded by the cd hook: `name|short_hash` entries.
pub const AM_PROJECT_ALIASES: &'static str = "_AM_PROJECT_ALIASES";

} // verus!

//! Effects: the I/O an update asks for, and lines echoed to the shell.
use vstd::prelude::*;

use crate::config::LogVerbosity;

verus! {

/// A line to show, or nothing.
#[derive(Debug, Clone, PartialEq)]
pub enum Echo {
    Silent,
    Line(String),
}

impl Echo {
    /// Picks the output for a verbosity. Only the closure for the chosen
    /// tier is called; none is called when output is off.
    pub fn from_verbosity<S: FnOnce() -> String, V: FnOnce() -> String>(
        verbosity: &LogVerbosity,
        short: S,
        verbose: V,
    ) -> (r: Self)
        requires
            *verbosity == LogVerbosity::Short ==> short.requires(()),
            *verbosity == LogVerbosity::Verbose ==> verbose.requires(()),
        ensures
            *verbosity == LogVerbosity::Off ==> r is Silent,
            *verbosity == LogVerbosity::Short ==> (r matches Echo::Line(s) && short.ensures((), s)),
            *verbosity == LogVerbosity::Verbose ==> (r matches Echo::Line(s) && verbose.ensures(
                (),
                s,
            )),
    {
        match verbosity {
            LogVerbosity::Off => Echo::Silent,
            LogVerbosity::Short => Echo::Line(short()),
            LogVerbosity::Verbose => Echo::Line(verbose()),
        }
    }

    /// Output that is always shown: nothing for an empty string.
    pub fn always(s: String) -> (r: Self)
        ensures
            s@.len() == 0 ==> r is Silent,
            s@.len() > 0 ==> r == Echo::Line(s),
    {
        if s.unicode_len() == 0 {
            Echo::Silent
        } else {
            Echo::Line(s)
        }
    }
}

/// I/O an update asks the caller to perform.
#[derive(Debug, PartialEq)]
pub enum Effect {
    SaveConfig,
    SaveSession,
    SaveProfiles,
    AddLocalAlias { name: String, cmd: String, raw: bool },
    RemoveLocalAlias { name: String },
    AddLocalSubcommand { key: String, long_subcommands: Vec<String> },
    RemoveLocalSubcommand { key: String },
    Print(String),
    PrintLines(Vec<Echo>),
    SaveSecurity,
}

} // verus!

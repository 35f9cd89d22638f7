//! The layers that feed the effective alias set, and what resolving them yields.
use vstd::prelude::*;

use crate::alias::{AliasSet, AliasSpec, TomlAlias};
use crate::subcommand::{EntrySpec, SubcommandEntry, SubcommandSet};
use crate::text::{push_str, string_from, views};
use crate::vars::VarSet;

verus! {

/// The scope an entry comes from.
#[derive(Debug, Clone, PartialEq, Eq, PartialOrd, Ord)]
pub enum OriginScope {
    Global,
    Profile(String),
    Project,
}

/// What an origin denotes.
pub enum OriginSpec {
    Global,
    Profile(Seq<char>),
    Project,
}

impl View for OriginScope {
    type V = OriginSpec;

    open spec fn view(&self) -> OriginSpec {
        match self {
            OriginScope::Global => OriginSpec::Global,
            OriginScope::Profile(n) => OriginSpec::Profile(n@),
            OriginScope::Project => OriginSpec::Project,
        }
    }
}

/// The label used in `from` columns: `global`, `project` or `profile:<name>`.
pub open spec fn origin_label(o: OriginSpec) -> Seq<char> {
    match o {
        OriginSpec::Global => "global"@,
        OriginSpec::Profile(n) => "profile:"@ + n,
        OriginSpec::Project => "project"@,
    }
}

impl OriginScope {
    pub fn as_from_label(&self) -> (r: String)
        ensures
            r@ == origin_label(self@),
    {
        match self {
            OriginScope::Global => string_from("global"),
            OriginScope::Profile(n) => {
                let mut s = string_from("profile:");
                push_str(&mut s, n.as_str());
                s
            },
            OriginScope::Project => string_from("project"),
        }
    }

    pub fn dup(&self) -> (r: Self)
        ensures
            r@ == self@,
    {
        match self {
            OriginScope::Global => OriginScope::Global,
            OriginScope::Profile(n) => OriginScope::Profile(n.clone()),
            OriginScope::Project => OriginScope::Project,
        }
    }
}

/// One active profile's content, as a resolution layer.
#[derive(Debug)]
pub struct ProfileLayer {
    pub name: String,
    pub aliases: AliasSet,
    pub subcommands: SubcommandSet,
    pub vars: VarSet,
}

/// What an effective entry is.
#[derive(Debug, Clone, PartialEq)]
pub enum EntryKind {
    /// A plain alias.
    Alias(TomlAlias),
    /// The shell function wrapping a program's subcommand aliases.
    SubcommandWrapper { program: String, entries: Vec<SubcommandEntry>, base_cmd: Option<String> },
    /// A subcommand key tracked for change detection only.
    SubcommandKey { longs: Vec<String> },
}

/// One entry of the effective set.
#[derive(Debug, Clone, PartialEq)]
pub struct EffectiveEntry {
    pub name: String,
    pub kind: EntryKind,
    pub hash: String,
}

/// What an entry kind denotes.
pub enum KindSpec {
    Alias(AliasSpec),
    Wrapper(Seq<char>, Seq<EntrySpec>),
    Key(Seq<Seq<char>>),
}

impl View for EffectiveEntry {
    type V = (Seq<char>, KindSpec);

    open spec fn view(&self) -> (Seq<char>, KindSpec) {
        (self.name@, match self.kind {
            EntryKind::Alias(a) => KindSpec::Alias(a@),
            EntryKind::SubcommandWrapper { program, entries, .. } => KindSpec::Wrapper(
                program@,
                entries@.map_values(|e: SubcommandEntry| e@),
            ),
            EntryKind::SubcommandKey { longs } => KindSpec::Key(views(longs@)),
        })
    }
}

impl EffectiveEntry {
    /// An equal copy.
    pub fn dup(&self) -> (r: Self)
        ensures
            r@ == self@,
    {
        let kind = match &self.kind {
            EntryKind::Alias(a) => EntryKind::Alias(crate::strmap::Dup::dup(a)),
            EntryKind::SubcommandWrapper { program, entries, base_cmd } => EntryKind::SubcommandWrapper {
                program: program.clone(),
                entries: crate::subcommand::dup_entries(entries.as_slice()),
                base_cmd: crate::alias::dup_opt(base_cmd),
            },
            EntryKind::SubcommandKey { longs } => EntryKind::SubcommandKey {
                longs: crate::subcommand::dup_strings(longs.as_slice()),
            },
        };
        EffectiveEntry { name: self.name.clone(), kind, hash: self.hash.clone() }
    }
}

/// The difference between the previous and the new effective set.
#[derive(Debug, Clone, PartialEq)]
pub struct PrecedenceDiff {
    pub added: Vec<EffectiveEntry>,
    pub changed: Vec<EffectiveEntry>,
    pub removed: Vec<String>,
    pub unchanged: Vec<EffectiveEntry>,
}

impl Default for PrecedenceDiff {
    fn default() -> (r: Self)
        ensures
            r.added@.len() == 0,
            r.changed@.len() == 0,
            r.removed@.len() == 0,
            r.unchanged@.len() == 0,
    {
        PrecedenceDiff {
            added: Vec::new(),
            changed: Vec::new(),
            removed: Vec::new(),
            unchanged: Vec::new(),
        }
    }
}

/// A rendered problem found while resolving.
#[derive(Debug, Clone, PartialEq)]
pub struct Diagnostic {
    pub message: String,
}

/// What resolving the layers gave.
#[derive(Debug, Clone, PartialEq)]
pub struct ResolveOutcome {
    pub diff: PrecedenceDiff,
    pub diagnostics: Vec<Diagnostic>,
}

} // verus!

//! A project's `.aliases` file and its trust state.
use vstd::prelude::*;

use crate::alias::{AliasDetail, AliasName, AliasSet, AliasSpec, TomlAlias};
use crate::error::AmError;
use crate::subcommand::{SubcommandSet, SubSpec, TomlSubcommand};
use crate::vars::VarSet;

verus! {

/// The contents of a project `.aliases` file.
#[derive(Debug)]
pub struct ProjectAliases {
    pub aliases: AliasSet,
    pub subcommands: SubcommandSet,
    pub vars: VarSet,
}

impl Default for ProjectAliases {
    fn default() -> (r: Self)
        ensures
            r.aliases@ == Map::<Seq<char>, AliasSpec>::empty(),
            r.subcommands@ == Map::<Seq<char>, SubSpec>::empty(),
            r.vars@ == Map::<Seq<char>, Seq<char>>::empty(),
    {
        ProjectAliases {
            aliases: AliasSet::default(),
            subcommands: SubcommandSet::new(),
            vars: VarSet::default(),
        }
    }
}

/// The definition `add_alias` stores: the bare command, or the table form
/// when `raw` is set.
pub open spec fn added_alias(command: Seq<char>, raw: bool) -> AliasSpec {
    if raw {
        AliasSpec { command, description: None, raw: true, detailed: true }
    } else {
        AliasSpec { command, description: None, raw: false, detailed: false }
    }
}

/// The definition for a command, table form when `raw`.
pub fn make_alias(command: String, raw: bool) -> (r: TomlAlias)
    ensures
        r@ == added_alias(command@, raw),
{
    if raw {
        TomlAlias::Detailed(AliasDetail { command, description: None, raw: true })
    } else {
        TomlAlias::Command(command)
    }
}

impl ProjectAliases {
    /// Adds or replaces an alias.
    pub fn add_alias(&mut self, name: String, command: String, raw: bool)
        ensures
            final(self).aliases@ == old(self).aliases@.insert(name@, added_alias(command@, raw)),
            final(self).subcommands@ == old(self).subcommands@,
            final(self).vars@ == old(self).vars@,
    {
        let key = AliasName::from_string(name);
        self.aliases.insert(key, make_alias(command, raw));
    }

    /// Removes an alias; says whether there was one.
    pub fn remove_alias(&mut self, name: &str) -> (r: bool)
        ensures
            r == old(self).aliases@.contains_key(name@),
            final(self).aliases@ == old(self).aliases@.remove(name@),
            final(self).subcommands@ == old(self).subcommands@,
            final(self).vars@ == old(self).vars@,
    {
        let key = AliasName::new(name);
        self.aliases.remove(&key).is_some()
    }

    /// Adds or replaces a subcommand alias.
    pub fn add_subcommand(&mut self, key: String, long_subcommands: Vec<String>)
        ensures
            final(self).subcommands@ == old(self).subcommands@.insert(
                key@,
                TomlSubcommand::Expansion(long_subcommands)@,
            ),
            final(self).aliases@ == old(self).aliases@,
            final(self).vars@ == old(self).vars@,
    {
        self.subcommands.insert(key, TomlSubcommand::Expansion(long_subcommands));
    }

    /// Removes a subcommand alias; an error when there is none.
    pub fn remove_subcommand(&mut self, key: &str) -> (r: Result<(), AmError>)
        ensures
            r is Ok <==> old(self).subcommands@.contains_key(key@),
            final(self).subcommands@ == old(self).subcommands@.remove(key@),
            r matches Err(AmError::SubcommandNotFound { key: k }) ==> k@ == key@,
            r matches Err(e) ==> e is SubcommandNotFound,
            final(self).aliases@ == old(self).aliases@,
            final(self).vars@ == old(self).vars@,
    {
        match self.subcommands.remove(key) {
            Some(_) => Ok(()),
            None => Err(AmError::subcommand_not_found(key)),
        }
    }
}

/// How far a project `.aliases` file is trusted.
#[derive(Debug, Clone, Copy, PartialEq, Eq, Structural)]
pub enum TrustStatus {
    /// Reviewed and allowed, content unchanged since.
    Trusted,
    /// Never reviewed.
    Unknown,
    /// Explicitly blocked.
    Untrusted,
    /// Changed since it was trusted.
    Tampered,
}

/// The trust state of a project file with content hash `hash`: trusted
/// when a trust record holds that hash, tampered when it holds another,
/// untrusted when blocked, else never reviewed.
pub open spec fn trust_of(trusted_hash: Option<Seq<char>>, blocked: bool, hash: Seq<char>) -> TrustStatus {
    match trusted_hash {
        Some(h) => if h == hash {
            TrustStatus::Trusted
        } else {
            TrustStatus::Tampered
        },
        None => if blocked {
            TrustStatus::Untrusted
        } else {
            TrustStatus::Unknown
        },
    }
}

/// Decides the trust state of a project file from its trust record.
pub fn trust_status(trusted_hash: Option<&str>, blocked: bool, hash: &str) -> (r: TrustStatus)
    ensures
        r == trust_of(crate::described::opt_str_view(trusted_hash), blocked, hash@),
{
    match trusted_hash {
        Some(h) => {
            if crate::text::str_equal(h, hash) {
                TrustStatus::Trusted
            } else {
                TrustStatus::Tampered
            }
        },
        None => {
            if blocked {
                TrustStatus::Untrusted
            } else {
                TrustStatus::Unknown
            }
        },
    }
}

/// A project file found in scope, with its contents when trusted. The path
/// is the text to show for it.
#[derive(Debug)]
pub enum ProjectTrust {
    Trusted(ProjectAliases, String),
    Unknown(String),
    Untrusted(String),
    Tampered(String),
}

impl ProjectTrust {
    pub open spec fn spec_path(&self) -> Seq<char> {
        match self {
            ProjectTrust::Trusted(_, p) => p@,
            ProjectTrust::Unknown(p) => p@,
            ProjectTrust::Untrusted(p) => p@,
            ProjectTrust::Tampered(p) => p@,
        }
    }

    /// The path of the project file.
    pub fn path(&self) -> (r: &str)
        ensures
            r@ == self.spec_path(),
    {
        match self {
            ProjectTrust::Trusted(_, p) => p.as_str(),
            ProjectTrust::Unknown(p) => p.as_str(),
            ProjectTrust::Untrusted(p) => p.as_str(),
            ProjectTrust::Tampered(p) => p.as_str(),
        }
    }
}

} // verus!

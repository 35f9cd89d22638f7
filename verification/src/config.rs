//! The global configuration: global aliases, subcommand aliases and shell options.
use vstd::prelude::*;

use crate::alias::{AliasName, AliasSet, AliasSpec};
use crate::error::{AmError, ErrScope};
use crate::project::{added_alias, make_alias};
use crate::subcommand::{SubcommandSet, SubSpec, TomlSubcommand};

verus! {

/// Per-shell options.
#[derive(Debug, Clone, PartialEq, Eq)]
pub struct ShellsTomlConfig {
    pub fish: Option<FishConfig>,
}

impl Default for ShellsTomlConfig {
    fn default() -> (r: Self)
        ensures
            r.fish is None,
    {
        ShellsTomlConfig { fish: None }
    }
}

/// Options for fish.
#[derive(Debug, Clone, Copy, PartialEq, Eq)]
pub struct FishConfig {
    /// Define abbreviations instead of aliases.
    pub use_abbr: bool,
}

/// How much `am` reports about what it did.
#[derive(Debug, Clone, Copy, PartialEq, Eq)]
pub enum LogVerbosity {
    Off,
    Short,
    Verbose,
}

/// The global configuration file.
#[derive(Debug)]
pub struct Config {
    pub aliases: AliasSet,
    pub subcommands: SubcommandSet,
    pub shell: ShellsTomlConfig,
}

impl Default for Config {
    fn default() -> (r: Self)
        ensures
            r.aliases@ == Map::<Seq<char>, AliasSpec>::empty(),
            r.subcommands@ == Map::<Seq<char>, SubSpec>::empty(),
            r.shell.fish is None,
    {
        Config {
            aliases: AliasSet::default(),
            subcommands: SubcommandSet::new(),
            shell: ShellsTomlConfig::default(),
        }
    }
}

impl Config {
    /// Adds or replaces a global alias; `raw` stores the table form.
    pub fn add_alias(&mut self, name: String, command: String, raw: bool)
        ensures
            final(self).aliases@ == old(self).aliases@.insert(name@, added_alias(command@, raw)),
            final(self).subcommands@ == old(self).subcommands@,
            final(self).shell == old(self).shell,
    {
        let key = AliasName::from_string(name);
        self.aliases.insert(key, make_alias(command, raw));
    }

    /// Adds every incoming alias, replacing same-named global ones.
    pub fn merge_aliases(&mut self, incoming: AliasSet)
        ensures
            final(self).aliases@ == old(self).aliases@.union_prefer_right(incoming@),
            final(self).subcommands@ == old(self).subcommands@,
            final(self).shell == old(self).shell,
    {
        self.aliases.insert_all(&incoming);
    }

    /// Removes a global alias; an error when there is none of that name.
    pub fn remove_alias(&mut self, name: &str) -> (r: Result<(), AmError>)
        ensures
            r is Ok <==> old(self).aliases@.contains_key(name@),
            final(self).aliases@ == old(self).aliases@.remove(name@),
            r matches Err(e) ==> (e matches AmError::AliasNotFound { scope: s, name: n } && s
                == ErrScope::Global && n@ == name@),
            final(self).subcommands@ == old(self).subcommands@,
            final(self).shell == old(self).shell,
    {
        let key = AliasName::new(name);
        match self.aliases.remove(&key) {
            Some(_) => Ok(()),
            None => Err(AmError::alias_not_found(ErrScope::Global, name)),
        }
    }

    /// Adds or replaces a global subcommand alias.
    pub fn add_subcommand(&mut self, key: String, long_subcommands: Vec<String>)
        ensures
            final(self).subcommands@ == old(self).subcommands@.insert(
                key@,
                TomlSubcommand::Expansion(long_subcommands)@,
            ),
            final(self).aliases@ == old(self).aliases@,
            final(self).shell == old(self).shell,
    {
        self.subcommands.insert(key, TomlSubcommand::Expansion(long_subcommands));
    }

    /// Removes a global subcommand alias; an error when there is none.
    pub fn remove_subcommand(&mut self, key: &str) -> (r: Result<(), AmError>)
        ensures
            r is Ok <==> old(self).subcommands@.contains_key(key@),
            final(self).subcommands@ == old(self).subcommands@.remove(key@),
            r matches Err(e) ==> (e matches AmError::SubcommandNotFound { key: k } && k@ == key@),
            final(self).aliases@ == old(self).aliases@,
            final(self).shell == old(self).shell,
    {
        match self.subcommands.remove(key) {
            Some(_) => Ok(()),
            None => Err(AmError::subcommand_not_found(key)),
        }
    }
}

} // verus!

//! Alias management: global aliases, profiles, project `.aliases` files,
//! subcommand aliases, variables, import/export and the renderers built on them.
use vstd::prelude::*;

pub mod alias;
pub mod alias_id;
pub mod completion;
pub mod config;
pub mod context;
pub mod described;
pub mod dirs;
pub mod display;
pub mod effects;
pub mod env_vars;
pub mod error;
pub mod exchange;
pub mod hook;
pub mod precedence;
pub mod profile;
pub mod project;
pub mod session;
pub mod shell;
pub mod sort;
pub mod strmap;
pub mod subcommand;
pub mod text;
pub mod tui;
pub mod vars;

pub use alias::{AliasDetail, AliasName, AliasSet, TomlAlias};
pub use alias_id::{AliasId, AliasTarget, SubcommandScope};
pub use config::Config;
pub use described::Described;
pub use profile::{Profile, ProfileConfig};
pub use project::ProjectAliases;

verus! {
} // verus!

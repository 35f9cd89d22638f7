//! Errors the library reports.
use vstd::prelude::*;

use crate::text::{push_str, string_from};

verus! {

/// Where a missing entry was looked for.
#[derive(Debug, Clone, Copy, PartialEq, Eq)]
pub enum ErrScope {
    Global,
    Project,
}

/// A failed request.
#[derive(Debug, Clone, PartialEq, Eq)]
pub enum AmError {
    /// No alias of that name in the scope.
    AliasNotFound { scope: ErrScope, name: String },
    /// No subcommand alias with that key.
    SubcommandNotFound { key: String },
}

/// The message for an error.
pub open spec fn error_message(e: AmError) -> Seq<char> {
    match e {
        AmError::AliasNotFound { scope: ErrScope::Global, name } => "Global alias '"@ + name@
            + "' not found"@,
        AmError::AliasNotFound { scope: ErrScope::Project, name } => "Project alias '"@ + name@
            + "' not found"@,
        AmError::SubcommandNotFound { key } => "Subcommand alias '"@ + key@ + "' not found"@,
    }
}

impl AmError {
    pub fn alias_not_found(scope: ErrScope, name: &str) -> (r: AmError)
        ensures
            r matches AmError::AliasNotFound { scope: s, name: n } && s == scope && n@ == name@,
    {
        AmError::AliasNotFound { scope, name: string_from(name) }
    }

    pub fn subcommand_not_found(key: &str) -> (r: AmError)
        ensures
            r matches AmError::SubcommandNotFound { key: k } && k@ == key@,
    {
        AmError::SubcommandNotFound { key: string_from(key) }
    }

    /// The message shown to the user.
    pub fn to_string(&self) -> (r: String)
        ensures
            r@ == error_message(*self),
    {
        match self {
            AmError::AliasNotFound { scope, name } => {
                let mut s = match scope {
                    ErrScope::Global => string_from("Global alias '"),
                    ErrScope::Project => string_from("Project alias '"),
                };
                push_str(&mut s, name.as_str());
                push_str(&mut s, "' not found");
                s
            },
            AmError::SubcommandNotFound { key } => {
                let mut s = string_from("Subcommand alias '");
                push_str(&mut s, key.as_str());
                push_str(&mut s, "' not found");
                s
            },
        }
    }
}

} // verus!

//! Canonical references to single aliases across scopes.
use vstd::prelude::*;

use crate::text::{lemma_seq_lt_irreflexive, lemma_seq_lt_total, lemma_seq_lt_transitive, lemma_seq_lt_asymmetric, seq_lt, str_equal, str_lt};

verus! {

/// The scope an alias lives in.
#[derive(Debug, Clone, PartialEq, Eq, PartialOrd, Ord, Hash)]
pub enum AliasTarget {
    Global,
    Profile(String),
    Local,
}

/// The scope of a subcommand alias.
#[derive(Debug, Clone, PartialEq, Eq, PartialOrd, Ord, Hash)]
pub enum SubcommandScope {
    Global,
    Profile(String),
    Project,
}

/// A reference to one alias in any scope.
#[derive(Debug, Clone, PartialEq, Eq, PartialOrd, Ord, Hash)]
pub enum AliasId {
    Global { alias_name: String },
    Profile { profile_name: String, alias_name: String },
    Project { alias_name: String },
    Subcommand { scope: SubcommandScope, key: String },
}

/// What a target denotes.
pub enum TargetSpec {
    Global,
    Profile(Seq<char>),
    Local,
}

impl View for AliasTarget {
    type V = TargetSpec;

    open spec fn view(&self) -> TargetSpec {
        match self {
            AliasTarget::Global => TargetSpec::Global,
            AliasTarget::Profile(p) => TargetSpec::Profile(p@),
            AliasTarget::Local => TargetSpec::Local,
        }
    }
}

impl AliasId {
    /// The alias name, or the full key of a subcommand alias.
    pub open spec fn spec_name(&self) -> Seq<char> {
        match self {
            AliasId::Global { alias_name } => alias_name@,
            AliasId::Profile { alias_name, .. } => alias_name@,
            AliasId::Project { alias_name } => alias_name@,
            AliasId::Subcommand { key, .. } => key@,
        }
    }

    /// The scope the alias lives in.
    pub open spec fn spec_target(&self) -> TargetSpec {
        match self {
            AliasId::Global { .. } => TargetSpec::Global,
            AliasId::Profile { profile_name, .. } => TargetSpec::Profile(profile_name@),
            AliasId::Project { .. } => TargetSpec::Local,
            AliasId::Subcommand { scope, .. } => match scope {
                SubcommandScope::Global => TargetSpec::Global,
                SubcommandScope::Profile(n) => TargetSpec::Profile(n@),
                SubcommandScope::Project => TargetSpec::Local,
            },
        }
    }

    pub fn name(&self) -> (r: &str)
        ensures
            r@ == self.spec_name(),
    {
        match self {
            AliasId::Global { alias_name } => alias_name.as_str(),
            AliasId::Profile { alias_name, .. } => alias_name.as_str(),
            AliasId::Project { alias_name } => alias_name.as_str(),
            AliasId::Subcommand { key, .. } => key.as_str(),
        }
    }

    pub fn target(&self) -> (r: AliasTarget)
        ensures
            r@ == self.spec_target(),
    {
        match self {
            AliasId::Global { .. } => AliasTarget::Global,
            AliasId::Profile { profile_name, .. } => AliasTarget::Profile(profile_name.clone()),
            AliasId::Project { .. } => AliasTarget::Local,
            AliasId::Subcommand { scope, .. } => match scope {
                SubcommandScope::Global => AliasTarget::Global,
                SubcommandScope::Profile(name) => AliasTarget::Profile(name.clone()),
                SubcommandScope::Project => AliasTarget::Local,
            },
        }
    }
}

/// What an alias reference denotes.
pub enum IdSpec {
    Global(Seq<char>),
    Profile(Seq<char>, Seq<char>),
    Project(Seq<char>),
    Subcommand(TargetSpec, Seq<char>),
}

impl View for AliasId {
    type V = IdSpec;

    open spec fn view(&self) -> IdSpec {
        match self {
            AliasId::Global { alias_name } => IdSpec::Global(alias_name@),
            AliasId::Profile { profile_name, alias_name } => IdSpec::Profile(profile_name@, alias_name@),
            AliasId::Project { alias_name } => IdSpec::Project(alias_name@),
            AliasId::Subcommand { scope, key } => IdSpec::Subcommand(
                match scope {
                    SubcommandScope::Global => TargetSpec::Global,
                    SubcommandScope::Profile(n) => TargetSpec::Profile(n@),
                    SubcommandScope::Project => TargetSpec::Local,
                },
                key@,
            ),
        }
    }
}

/// The rank of a scope in the order `derive(Ord)` gives.
pub open spec fn target_rank(t: TargetSpec) -> int {
    match t {
        TargetSpec::Global => 0,
        TargetSpec::Profile(_) => 1,
        TargetSpec::Local => 2,
    }
}

/// Scope order: global, then profiles by name, then the project.
pub open spec fn target_lt(a: TargetSpec, b: TargetSpec) -> bool {
    match (a, b) {
        (TargetSpec::Profile(x), TargetSpec::Profile(y)) => seq_lt(x, y),
        _ => target_rank(a) < target_rank(b),
    }
}

/// The rank of a reference's variant.
pub open spec fn id_rank(i: IdSpec) -> int {
    match i {
        IdSpec::Global(_) => 0,
        IdSpec::Profile(_, _) => 1,
        IdSpec::Project(_) => 2,
        IdSpec::Subcommand(_, _) => 3,
    }
}

/// The order of alias references: by variant, then field by field, names
/// by code point (the order `derive(Ord)` gives).
pub open spec fn id_lt(a: IdSpec, b: IdSpec) -> bool {
    match (a, b) {
        (IdSpec::Global(x), IdSpec::Global(y)) => seq_lt(x, y),
        (IdSpec::Profile(p, x), IdSpec::Profile(q, y)) => seq_lt(p, q) || (p == q && seq_lt(x, y)),
        (IdSpec::Project(x), IdSpec::Project(y)) => seq_lt(x, y),
        (IdSpec::Subcommand(s, x), IdSpec::Subcommand(t, y)) => target_lt(s, t) || (s == t && seq_lt(x, y)),
        _ => id_rank(a) < id_rank(b),
    }
}

/// The reference order is a strict total order.
pub proof fn lemma_id_lt_order(a: IdSpec, b: IdSpec, c: IdSpec)
    ensures
        !id_lt(a, a),
        a == b || id_lt(a, b) || id_lt(b, a),
        !(id_lt(a, b) && id_lt(b, a)),
        id_lt(a, b) && id_lt(b, c) ==> id_lt(a, c),
{
    match a {
        IdSpec::Global(x) => lemma_seq_lt_irreflexive(x),
        IdSpec::Profile(p, x) => {
            lemma_seq_lt_irreflexive(p);
            lemma_seq_lt_irreflexive(x);
        },
        IdSpec::Project(x) => lemma_seq_lt_irreflexive(x),
        IdSpec::Subcommand(s, x) => {
            lemma_seq_lt_irreflexive(x);
            if let TargetSpec::Profile(n) = s {
                lemma_seq_lt_irreflexive(n);
            }
        },
    }
    match (a, b) {
        (IdSpec::Global(x), IdSpec::Global(y)) => {
            lemma_seq_lt_total(x, y);
            lemma_seq_lt_asymmetric(x, y);
        },
        (IdSpec::Profile(p, x), IdSpec::Profile(q, y)) => {
            lemma_seq_lt_total(p, q);
            lemma_seq_lt_asymmetric(p, q);
            lemma_seq_lt_total(x, y);
            lemma_seq_lt_asymmetric(x, y);
            lemma_seq_lt_irreflexive(p);
        },
        (IdSpec::Project(x), IdSpec::Project(y)) => {
            lemma_seq_lt_total(x, y);
            lemma_seq_lt_asymmetric(x, y);
        },
        (IdSpec::Subcommand(s, x), IdSpec::Subcommand(t, y)) => {
            lemma_seq_lt_total(x, y);
            lemma_seq_lt_asymmetric(x, y);
            if let (TargetSpec::Profile(m), TargetSpec::Profile(n)) = (s, t) {
                lemma_seq_lt_total(m, n);
                lemma_seq_lt_asymmetric(m, n);
                lemma_seq_lt_irreflexive(m);
            }
        },
        _ => {},
    }
    if id_lt(a, b) && id_lt(b, c) {
        match (a, b, c) {
            (IdSpec::Global(x), IdSpec::Global(y), IdSpec::Global(z)) => lemma_seq_lt_transitive(x, y, z),
            (IdSpec::Profile(p, x), IdSpec::Profile(q, y), IdSpec::Profile(r, z)) => {
                if seq_lt(p, q) && seq_lt(q, r) {
                    lemma_seq_lt_transitive(p, q, r);
                }
                if p == q && q == r {
                    lemma_seq_lt_transitive(x, y, z);
                }
            },
            (IdSpec::Project(x), IdSpec::Project(y), IdSpec::Project(z)) => lemma_seq_lt_transitive(x, y, z),
            (IdSpec::Subcommand(s, x), IdSpec::Subcommand(t, y), IdSpec::Subcommand(u, z)) => {
                if s == t && t == u {
                    lemma_seq_lt_transitive(x, y, z);
                }
                if let (TargetSpec::Profile(m), TargetSpec::Profile(n), TargetSpec::Profile(o)) = (s, t, u) {
                    if seq_lt(m, n) && seq_lt(n, o) {
                        lemma_seq_lt_transitive(m, n, o);
                    }
                }
            },
            _ => {},
        }
    }
}

fn scope_of(s: &SubcommandScope) -> (r: (u8, &str))
    ensures
        r.0 as int == target_rank(match s {
            SubcommandScope::Global => TargetSpec::Global,
            SubcommandScope::Profile(n) => TargetSpec::Profile(n@),
            SubcommandScope::Project => TargetSpec::Local,
        }),
        s matches SubcommandScope::Profile(n) ==> r.1@ == n@,
{
    match s {
        SubcommandScope::Global => (0, ""),
        SubcommandScope::Profile(n) => (1, n.as_str()),
        SubcommandScope::Project => (2, ""),
    }
}

fn rank_of(id: &AliasId) -> (r: u8)
    ensures
        r as int == id_rank(id@),
{
    match id {
        AliasId::Global { .. } => 0,
        AliasId::Profile { .. } => 1,
        AliasId::Project { .. } => 2,
        AliasId::Subcommand { .. } => 3,
    }
}

/// Do two references denote the same alias?
pub fn id_equal(a: &AliasId, b: &AliasId) -> (r: bool)
    ensures
        r == (a@ == b@),
{
    match (a, b) {
        (AliasId::Global { alias_name: x }, AliasId::Global { alias_name: y }) => str_equal(x.as_str(), y.as_str()),
        (
            AliasId::Profile { profile_name: p, alias_name: x },
            AliasId::Profile { profile_name: q, alias_name: y },
        ) => str_equal(p.as_str(), q.as_str()) && str_equal(x.as_str(), y.as_str()),
        (AliasId::Project { alias_name: x }, AliasId::Project { alias_name: y }) => str_equal(x.as_str(), y.as_str()),
        (AliasId::Subcommand { scope: s, key: x }, AliasId::Subcommand { scope: t, key: y }) => {
            let (rs, ns) = scope_of(s);
            let (rt, nt) = scope_of(t);
            rs == rt && (rs != 1 || str_equal(ns, nt)) && str_equal(x.as_str(), y.as_str())
        },
        _ => false,
    }
}

/// Does `a` sort before `b`?
pub fn id_less(a: &AliasId, b: &AliasId) -> (r: bool)
    ensures
        r == id_lt(a@, b@),
{
    match (a, b) {
        (AliasId::Global { alias_name: x }, AliasId::Global { alias_name: y }) => str_lt(x.as_str(), y.as_str()),
        (
            AliasId::Profile { profile_name: p, alias_name: x },
            AliasId::Profile { profile_name: q, alias_name: y },
        ) => str_lt(p.as_str(), q.as_str()) || (str_equal(p.as_str(), q.as_str()) && str_lt(x.as_str(), y.as_str())),
        (AliasId::Project { alias_name: x }, AliasId::Project { alias_name: y }) => str_lt(x.as_str(), y.as_str()),
        (AliasId::Subcommand { scope: s, key: x }, AliasId::Subcommand { scope: t, key: y }) => {
            let (rs, ns) = scope_of(s);
            let (rt, nt) = scope_of(t);
            let scope_less = if rs == 1 && rt == 1 {
                str_lt(ns, nt)
            } else {
                rs < rt
            };
            let scope_same = rs == rt && (rs != 1 || str_equal(ns, nt));
            scope_less || (scope_same && str_lt(x.as_str(), y.as_str()))
        },
        _ => rank_of(a) < rank_of(b),
    }
}

impl AliasId {
    /// A copy of the reference.
    pub fn dup(&self) -> (r: AliasId)
        ensures
            r@ == self@,
    {
        match self {
            AliasId::Global { alias_name } => AliasId::Global { alias_name: alias_name.clone() },
            AliasId::Profile { profile_name, alias_name } => AliasId::Profile {
                profile_name: profile_name.clone(),
                alias_name: alias_name.clone(),
            },
            AliasId::Project { alias_name } => AliasId::Project { alias_name: alias_name.clone() },
            AliasId::Subcommand { scope, key } => AliasId::Subcommand {
                scope: match scope {
                    SubcommandScope::Global => SubcommandScope::Global,
                    SubcommandScope::Profile(n) => SubcommandScope::Profile(n.clone()),
                    SubcommandScope::Project => SubcommandScope::Project,
                },
                key: key.clone(),
            },
        }
    }
}

} // verus!

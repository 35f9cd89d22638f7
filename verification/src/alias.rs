//! Aliases: names, definitions and the ordered alias set of one scope.
use vstd::prelude::*;
use vstd::std_specs::iter::IteratorSpec;

use crate::described::{opt_str_view, Described};
use crate::strmap::{
    conflicts_in, new_entries, triple_view, Dup, Mergeable, StrKey, StrMap,
};
use crate::text::{str_equal, string_from};

verus! {

/// The name under which an alias is defined.
#[derive(Debug, Clone, PartialEq, Eq, PartialOrd, Ord, Hash)]
pub struct AliasName(String);

impl View for AliasName {
    type V = Seq<char>;

    closed spec fn view(&self) -> Seq<char> {
        self.0@
    }
}

impl AliasName {
    pub fn new(name: &str) -> (r: Self)
        ensures
            r@ == name@,
    {
        AliasName(string_from(name))
    }

    pub fn from_string(name: String) -> (r: Self)
        ensures
            r@ == name@,
    {
        AliasName(name)
    }

    pub fn as_str(&self) -> (r: &str)
        ensures
            r@ == self@,
    {
        self.0.as_str()
    }

    /// The name as text.
    pub fn as_ref(&self) -> (r: &str)
        ensures
            r@ == self@,
    {
        self.0.as_str()
    }

    /// The name as text (what `Display` shows).
    pub fn to_string(&self) -> (r: String)
        ensures
            r@ == self@,
    {
        self.0.clone()
    }
}

impl Dup for AliasName {
    fn dup(&self) -> (r: Self) {
        AliasName(self.0.clone())
    }
}

impl StrKey for AliasName {
    fn as_key(&self) -> (r: &str) {
        self.0.as_str()
    }
}

impl From<&str> for AliasName {
    fn from(name: &str) -> (r: Self)
        ensures
            r@ == name@,
    {
        AliasName(string_from(name))
    }
}

impl vstd::std_specs::convert::FromSpecImpl<&str> for AliasName {
    open spec fn obeys_from_spec() -> bool {
        false
    }

    open spec fn from_spec(v: &str) -> Self {
        arbitrary()
    }
}

/// What an alias definition denotes.
pub struct AliasSpec {
    pub command: Seq<char>,
    pub description: Option<Seq<char>>,
    pub raw: bool,
    /// Written in the table form rather than as a bare command string.
    pub detailed: bool,
}

/// The table form of an alias definition.
#[derive(Debug, Clone, PartialEq)]
pub struct AliasDetail {
    pub command: String,
    pub description: Option<String>,
    pub raw: bool,
}

/// An alias definition: a bare command, or a table with extra fields.
#[derive(Debug, Clone, PartialEq)]
pub enum TomlAlias {
    Command(String),
    Detailed(AliasDetail),
}

/// The view of an optional owned string.
pub open spec fn opt_view(o: Option<String>) -> Option<Seq<char>> {
    match o {
        Some(s) => Some(s@),
        None => None,
    }
}

impl View for TomlAlias {
    type V = AliasSpec;

    open spec fn view(&self) -> AliasSpec {
        match self {
            TomlAlias::Command(c) => AliasSpec {
                command: c@,
                description: None,
                raw: false,
                detailed: false,
            },
            TomlAlias::Detailed(d) => AliasSpec {
                command: d.command@,
                description: opt_view(d.description),
                raw: d.raw,
                detailed: true,
            },
        }
    }
}

/// An owned copy of an optional string.
pub fn dup_opt(o: &Option<String>) -> (r: Option<String>)
    ensures
        opt_view(r) == opt_view(*o),
{
    match o {
        Some(s) => Some(s.clone()),
        None => None,
    }
}

/// The borrowed form of an optional string.
pub fn opt_as_str(o: &Option<String>) -> (r: Option<&str>)
    ensures
        opt_str_view(r) == opt_view(*o),
{
    match o {
        Some(s) => Some(s.as_str()),
        None => None,
    }
}

impl Dup for TomlAlias {
    fn dup(&self) -> (r: Self) {
        match self {
            TomlAlias::Command(c) => TomlAlias::Command(c.clone()),
            TomlAlias::Detailed(d) => TomlAlias::Detailed(
                AliasDetail { command: d.command.clone(), description: dup_opt(&d.description), raw: d.raw },
            ),
        }
    }
}

impl Mergeable for TomlAlias {
    /// Two definitions conflict when they run different commands.
    open spec fn differs(a: AliasSpec, b: AliasSpec) -> bool {
        a.command != b.command
    }

    fn differs_from(&self, other: &Self) -> (r: bool) {
        !str_equal(self.command(), other.command())
    }
}

impl Described for TomlAlias {
    open spec fn spec_description(&self) -> Option<Seq<char>> {
        self@.description
    }

    fn description(&self) -> (r: Option<&str>) {
        match self {
            TomlAlias::Command(_) => None,
            TomlAlias::Detailed(d) => opt_as_str(&d.description),
        }
    }
}

/// What the shell needs to define one alias.
#[derive(Debug)]
pub struct AliasEntry<'a> {
    pub name: &'a str,
    pub command: &'a str,
    pub raw: bool,
}

impl TomlAlias {
    pub fn as_entry<'a>(&'a self, name: &'a str) -> (r: AliasEntry<'a>)
        ensures
            r.name@ == name@,
            r.command@ == self@.command,
            r.raw == self@.raw,
    {
        AliasEntry {
            name,
            command: self.command(),
            raw: match self {
                TomlAlias::Detailed(d) => d.raw,
                TomlAlias::Command(_) => false,
            },
        }
    }

    pub fn command(&self) -> (r: &str)
        ensures
            r@ == self@.command,
    {
        match self {
            TomlAlias::Command(cmd) => cmd.as_str(),
            TomlAlias::Detailed(d) => d.command.as_str(),
        }
    }
}

/// The aliases of one scope, ordered by name.
#[derive(Debug)]
pub struct AliasSet(StrMap<AliasName, TomlAlias>);

impl View for AliasSet {
    type V = Map<Seq<char>, AliasSpec>;

    closed spec fn view(&self) -> Map<Seq<char>, AliasSpec> {
        self.0.spec_map()
    }
}

impl Default for AliasSet {
    fn default() -> (r: Self)
        ensures
            r@ == Map::<Seq<char>, AliasSpec>::empty(),
            r.pairs() == Seq::<(Seq<char>, AliasSpec)>::empty(),
    {
        AliasSet(StrMap::new())
    }
}

/// The outcome of checking an incoming alias set against an existing one.
#[derive(Debug)]
pub struct MergeResult {
    /// Incoming aliases whose names are not defined yet.
    pub new_aliases: AliasSet,
    /// Names defined on both sides with different commands.
    pub conflicts: Vec<AliasConflict>,
}

/// One name defined on both sides of a merge with different commands.
#[derive(Debug)]
pub struct AliasConflict {
    pub name: AliasName,
    pub current: TomlAlias,
    pub incoming: TomlAlias,
}

impl View for AliasConflict {
    type V = (Seq<char>, AliasSpec, AliasSpec);

    open spec fn view(&self) -> (Seq<char>, AliasSpec, AliasSpec) {
        (self.name@, self.current@, self.incoming@)
    }
}

/// Which aliases a listing shows.
#[derive(Debug)]
pub enum AliasDisplayFilter {
    Used,
}

/// Do two alias definitions conflict?
pub open spec fn alias_differs(a: AliasSpec, b: AliasSpec) -> bool {
    a.command != b.command
}

impl AliasSet {
    /// The entries in ascending name order.
    pub closed spec fn pairs(&self) -> Seq<(Seq<char>, AliasSpec)> {
        self.0.spec_pairs()
    }

    /// The entries, in ascending name order.
    pub fn iter(&self) -> (r: std::slice::Iter<'_, (AliasName, TomlAlias)>)
        ensures
            r.remaining().map_values(|p: &(AliasName, TomlAlias)| (p.0@, p.1@)) == self.pairs(),
    {
        self.0.iter()
    }

    /// The entries as a slice, in ascending name order.
    pub fn entries(&self) -> (r: &[(AliasName, TomlAlias)])
        ensures
            r@.map_values(|p: (AliasName, TomlAlias)| (p.0@, p.1@)) == self.pairs(),
            crate::strmap::keys_sorted(crate::strmap::pair_keys(self.pairs())),
            crate::strmap::pairs_map(self.pairs()) == self@,
    {
        let r = self.0.entries();
        assert(r@.map_values(|p: (AliasName, TomlAlias)| (p.0@, p.1@)) =~= crate::strmap::entries_view(r@));
        r
    }

    pub fn insert(&mut self, name: AliasName, alias: TomlAlias) -> (r: Option<TomlAlias>)
        ensures
            final(self)@ == old(self)@.insert(name@, alias@),
            r is Some == old(self)@.contains_key(name@),
            r matches Some(a) ==> a@ == old(self)@[name@],
    {
        self.0.insert(name, alias)
    }

    pub fn remove(&mut self, name: &AliasName) -> (r: Option<TomlAlias>)
        ensures
            final(self)@ == old(self)@.remove(name@),
            r is Some == old(self)@.contains_key(name@),
            r matches Some(a) ==> a@ == old(self)@[name@],
    {
        self.0.remove(name.as_str())
    }

    pub fn is_empty(&self) -> (r: bool)
        ensures
            r == (self@ =~= Map::<Seq<char>, AliasSpec>::empty()),
            r == (self@.len() == 0),
            r == (self.pairs().len() == 0),
    {
        let n = self.0.len();
        let r = self.0.is_empty();
        r
    }

    pub fn contains_key(&self, name: &AliasName) -> (r: bool)
        ensures
            r == self@.contains_key(name@),
    {
        self.0.contains_key(name.as_str())
    }

    pub fn get(&self, name: &AliasName) -> (r: Option<&TomlAlias>)
        ensures
            r is Some == self@.contains_key(name@),
            r matches Some(a) ==> a@ == self@[name@],
    {
        self.0.get(name.as_str())
    }

    /// Lookup by plain text.
    pub fn get_str(&self, name: &str) -> (r: Option<&TomlAlias>)
        ensures
            r is Some == self@.contains_key(name@),
            r matches Some(a) ==> a@ == self@[name@],
    {
        self.0.get(name)
    }

    pub fn len(&self) -> (r: usize)
        ensures
            r == self@.len(),
            r == self.pairs().len(),
    {
        self.0.len()
    }

    /// An equal copy.
    pub fn dup(&self) -> (r: Self)
        ensures
            r@ == self@,
            r.pairs() == self.pairs(),
    {
        AliasSet(self.0.dup_map())
    }

    /// Adds every alias of `other`, replacing same-named ones here.
    pub fn insert_all(&mut self, other: &AliasSet)
        ensures
            final(self)@ == old(self)@.union_prefer_right(other@),
    {
        self.0.insert_all(&other.0)
    }

    /// Checks `incoming` against this set: aliases whose names are new here,
    /// and, in name order, the names defined here with a different command.
    /// Aliases identical in command on both sides are in neither part.
    pub fn merge_check(&self, incoming: &AliasSet) -> (r: MergeResult)
        ensures
            r.new_aliases@ == new_entries(self@, incoming@),
            r.conflicts@.map_values(|c: AliasConflict| c@) == conflicts_in(
                self@,
                incoming.pairs(),
                |a: AliasSpec, b: AliasSpec| alias_differs(a, b),
            ),
    {
        let (fresh, triples) = self.0.merge_check(&incoming.0);
        let ghost tv = triples@.map_values(|c: (AliasName, TomlAlias, TomlAlias)| triple_view(c));
        proof {
            assert((|a: AliasSpec, b: AliasSpec| TomlAlias::differs(a, b)) =~= (|a: AliasSpec, b: AliasSpec| alias_differs(a, b)));
        }
        let mut conflicts: Vec<AliasConflict> = Vec::new();
        let mut rest = triples;
        let mut i: usize = 0;
        let n = rest.len();
        let ghost all = rest@;
        while rest.len() > 0
            invariant
                n == all.len(),
                i + rest@.len() == n,
                rest@ == all.skip(i as int),
                conflicts@.map_values(|c: AliasConflict| c@) == all.take(i as int).map_values(
                    |c: (AliasName, TomlAlias, TomlAlias)| triple_view(c),
                ),
            decreases rest@.len(),
        {
            let (name, current, incoming_alias) = rest.remove(0);
            let ghost before = conflicts@;
            let c = AliasConflict { name, current, incoming: incoming_alias };
            conflicts.push(c);
            proof {
                assert(all[i as int] == (c.name, c.current, c.incoming));
                assert(c@ == triple_view(all[i as int]));
                assert(conflicts@ =~= before.push(c));
                assert(conflicts@.map_values(|c: AliasConflict| c@) =~= before.map_values(|c: AliasConflict| c@).push(c@));
                assert(all.take(i + 1) =~= all.take(i as int).push(all[i as int]));
                assert(conflicts@.map_values(|c: AliasConflict| c@) =~= all.take(i + 1).map_values(
                    |c: (AliasName, TomlAlias, TomlAlias)| triple_view(c),
                ));
            }
            i = i + 1;
            proof {
                assert(rest@ =~= all.skip(i as int));
            }
        }
        proof {
            assert(all.take(n as int) =~= all);
        }
        MergeResult { new_aliases: AliasSet(fresh), conflicts }
    }
}

} // verus!

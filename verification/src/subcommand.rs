//! Subcommand aliases: short forms such as `git cm` keyed `program:short`.
use vstd::prelude::*;
use vstd::std_specs::iter::IteratorSpec;

use crate::alias::{dup_opt, opt_as_str, opt_view};
use crate::described::Described;
use crate::strmap::{Dup, Mergeable, StrMap};
use crate::text::{split_char, split_spec, str_equal, views};

verus! {

/// The table form of a subcommand alias.
#[derive(Debug, Clone, PartialEq)]
pub struct SubcommandDetail {
    pub expansions: Vec<String>,
    pub description: Option<String>,
}

/// A subcommand alias: the words it expands to, optionally described.
#[derive(Debug, Clone, PartialEq)]
pub enum TomlSubcommand {
    Expansion(Vec<String>),
    Detailed(SubcommandDetail),
}

/// What a subcommand alias denotes.
pub struct SubSpec {
    pub expansions: Seq<Seq<char>>,
    pub description: Option<Seq<char>>,
    pub detailed: bool,
}

impl View for TomlSubcommand {
    type V = SubSpec;

    open spec fn view(&self) -> SubSpec {
        match self {
            TomlSubcommand::Expansion(e) => SubSpec {
                expansions: views(e@),
                description: None,
                detailed: false,
            },
            TomlSubcommand::Detailed(d) => SubSpec {
                expansions: views(d.expansions@),
                description: opt_view(d.description),
                detailed: true,
            },
        }
    }
}

/// A copy of a list of strings.
pub fn dup_strings(v: &[String]) -> (r: Vec<String>)
    ensures
        views(r@) == views(v@),
{
    let mut r: Vec<String> = Vec::new();
    let mut i: usize = 0;
    while i < v.len()
        invariant
            i <= v@.len(),
            views(r@) == views(v@.take(i as int)),
        decreases v@.len() - i,
    {
        let ghost before = r@;
        let s = v[i].clone();
        r.push(s);
        proof {
            assert(r@ =~= before.push(s));
            assert(views(r@) =~= views(before).push(s@));
            assert(v@.take(i + 1) =~= v@.take(i as int).push(v@[i as int]));
            assert(views(v@.take(i + 1)) =~= views(v@.take(i as int)).push(v@[i as int]@));
            assert(views(r@) =~= views(v@.take(i + 1)));
        }
        i = i + 1;
    }
    proof {
        assert(v@.take(v@.len() as int) =~= v@);
    }
    r
}

/// Element-wise equality of two string lists.
pub fn strings_equal(a: &[String], b: &[String]) -> (r: bool)
    ensures
        r == (views(a@) == views(b@)),
{
    if a.len() != b.len() {
        proof {
            assert(views(a@).len() != views(b@).len());
        }
        return false;
    }
    let mut i: usize = 0;
    while i < a.len()
        invariant
            a@.len() == b@.len(),
            i <= a@.len(),
            forall|j: int| 0 <= j < i ==> a@[j]@ == b@[j]@,
        decreases a@.len() - i,
    {
        if !str_equal(a[i].as_str(), b[i].as_str()) {
            proof {
                assert(views(a@)[i as int] != views(b@)[i as int]);
            }
            return false;
        }
        i = i + 1;
    }
    assert(views(a@) =~= views(b@));
    true
}

/// Equality of two optional strings.
pub fn opt_str_equal(a: Option<&str>, b: Option<&str>) -> (r: bool)
    ensures
        r == (crate::described::opt_str_view(a) == crate::described::opt_str_view(b)),
{
    match (a, b) {
        (None, None) => true,
        (Some(x), Some(y)) => str_equal(x, y),
        _ => false,
    }
}

impl TomlSubcommand {
    /// The words the alias expands to.
    pub fn expansions(&self) -> (r: &[String])
        ensures
            views(r@) == self@.expansions,
    {
        match self {
            TomlSubcommand::Expansion(e) => e.as_slice(),
            TomlSubcommand::Detailed(d) => d.expansions.as_slice(),
        }
    }
}

impl Described for TomlSubcommand {
    open spec fn spec_description(&self) -> Option<Seq<char>> {
        self@.description
    }

    fn description(&self) -> (r: Option<&str>) {
        match self {
            TomlSubcommand::Expansion(_) => None,
            TomlSubcommand::Detailed(d) => opt_as_str(&d.description),
        }
    }
}

impl Dup for TomlSubcommand {
    fn dup(&self) -> (r: Self) {
        match self {
            TomlSubcommand::Expansion(e) => TomlSubcommand::Expansion(dup_strings(e.as_slice())),
            TomlSubcommand::Detailed(d) => TomlSubcommand::Detailed(
                SubcommandDetail {
                    expansions: dup_strings(d.expansions.as_slice()),
                    description: dup_opt(&d.description),
                },
            ),
        }
    }
}

/// Do two subcommand aliases differ in expansion or description?
pub open spec fn sub_differs(a: SubSpec, b: SubSpec) -> bool {
    a.expansions != b.expansions || a.description != b.description
}

impl Mergeable for TomlSubcommand {
    open spec fn differs(a: SubSpec, b: SubSpec) -> bool {
        sub_differs(a, b)
    }

    fn differs_from(&self, other: &Self) -> (r: bool) {
        let same = strings_equal(self.expansions(), other.expansions()) && opt_str_equal(
            self.description(),
            other.description(),
        );
        !same
    }
}

/// The subcommand aliases of one scope, ordered by key.

/// Does `k` start with `p`?
pub open spec fn prefixed(p: Seq<char>, k: Seq<char>) -> bool {
    p.len() <= k.len() && k.subrange(0, p.len() as int) == p
}

/// The subcommand aliases whose keys do not start with `p`.
pub open spec fn strip_prefixed(m: Map<Seq<char>, SubSpec>, p: Seq<char>) -> Map<Seq<char>, SubSpec> {
    Map::new(|k: Seq<char>| m.contains_key(k) && !prefixed(p, k), |k: Seq<char>| m[k])
}

/// Is there a key starting with `p`?
pub open spec fn has_prefixed(m: Map<Seq<char>, SubSpec>, p: Seq<char>) -> bool {
    exists|k: Seq<char>| m.contains_key(k) && prefixed(p, k)
}

#[derive(Debug)]
pub struct SubcommandSet(StrMap<String, TomlSubcommand>);

impl View for SubcommandSet {
    type V = Map<Seq<char>, SubSpec>;

    closed spec fn view(&self) -> Map<Seq<char>, SubSpec> {
        self.0.spec_map()
    }
}

impl Default for SubcommandSet {
    fn default() -> (r: Self)
        ensures
            r@ == Map::<Seq<char>, SubSpec>::empty(),
            r.pairs() == Seq::<(Seq<char>, SubSpec)>::empty(),
    {
        SubcommandSet(StrMap::new())
    }
}

/// One subcommand alias resolved into program and words.
#[derive(Debug, Clone, PartialEq)]
pub struct SubcommandEntry {
    pub program: String,
    pub short_subcommands: Vec<String>,
    pub long_subcommands: Vec<String>,
    pub description: Option<String>,
}

/// What a resolved subcommand entry denotes.
pub struct EntrySpec {
    pub program: Seq<char>,
    pub shorts: Seq<Seq<char>>,
    pub longs: Seq<Seq<char>>,
    pub description: Option<Seq<char>>,
}

impl View for SubcommandEntry {
    type V = EntrySpec;

    open spec fn view(&self) -> EntrySpec {
        EntrySpec {
            program: self.program@,
            shorts: views(self.short_subcommands@),
            longs: views(self.long_subcommands@),
            description: opt_view(self.description),
        }
    }
}

impl SubcommandEntry {
    /// An equal copy.
    pub fn dup(&self) -> (r: Self)
        ensures
            r@ == self@,
    {
        SubcommandEntry {
            program: self.program.clone(),
            short_subcommands: dup_strings(self.short_subcommands.as_slice()),
            long_subcommands: dup_strings(self.long_subcommands.as_slice()),
            description: dup_opt(&self.description),
        }
    }
}

/// A copy of a list of subcommand entries.
pub fn dup_entries(v: &[SubcommandEntry]) -> (r: Vec<SubcommandEntry>)
    ensures
        r@.map_values(|e: SubcommandEntry| e@) == v@.map_values(|e: SubcommandEntry| e@),
{
    let mut r: Vec<SubcommandEntry> = Vec::new();
    let mut i: usize = 0;
    while i < v.len()
        invariant
            i <= v@.len(),
            r@.map_values(|e: SubcommandEntry| e@) == v@.take(i as int).map_values(|e: SubcommandEntry| e@),
        decreases v@.len() - i,
    {
        let ghost before = r@;
        let e = v[i].dup();
        r.push(e);
        proof {
            assert(r@ =~= before.push(e));
            assert(r@.map_values(|e: SubcommandEntry| e@) =~= before.map_values(|e: SubcommandEntry| e@).push(e@));
            assert(v@.take(i + 1) =~= v@.take(i as int).push(v@[i as int]));
            assert(r@.map_values(|e: SubcommandEntry| e@) =~= v@.take(i + 1).map_values(|e: SubcommandEntry| e@));
        }
        i = i + 1;
    }
    proof {
        assert(v@.take(v@.len() as int) =~= v@);
    }
    r
}

/// The entries of one program, in key order.
#[derive(Debug)]
pub struct SubcommandGroup(pub Vec<SubcommandEntry>);

impl View for SubcommandGroup {
    type V = Seq<EntrySpec>;

    open spec fn view(&self) -> Seq<EntrySpec> {
        self.0@.map_values(|e: SubcommandEntry| e@)
    }
}

/// The entry a key and its alias resolve to: the program is the text before
/// the first `:`, the short words are the `:`-separated rest.
pub open spec fn entry_spec(key: Seq<char>, sub: SubSpec) -> EntrySpec {
    EntrySpec {
        program: split_spec(key, ':')[0],
        shorts: split_spec(key, ':').skip(1),
        longs: sub.expansions,
        description: sub.description,
    }
}

/// Subcommand aliases grouped by program, each group in key order.
pub open spec fn grouped(pairs: Seq<(Seq<char>, SubSpec)>) -> Map<Seq<char>, Seq<EntrySpec>>
    decreases pairs.len(),
{
    if pairs.len() == 0 {
        Map::empty()
    } else {
        let g = grouped(pairs.drop_last());
        let e = entry_spec(pairs.last().0, pairs.last().1);
        let prev = if g.contains_key(e.program) {
            g[e.program]
        } else {
            Seq::empty()
        };
        g.insert(e.program, prev.push(e))
    }
}

impl SubcommandSet {
    pub fn new() -> (r: Self)
        ensures
            r@ == Map::<Seq<char>, SubSpec>::empty(),
            r.pairs() == Seq::<(Seq<char>, SubSpec)>::empty(),
    {
        SubcommandSet(StrMap::new())
    }

    /// The entries in ascending key order.
    pub closed spec fn pairs(&self) -> Seq<(Seq<char>, SubSpec)> {
        self.0.spec_pairs()
    }

    /// The entries, in ascending key order.
    pub fn iter(&self) -> (r: std::slice::Iter<'_, (String, TomlSubcommand)>)
        ensures
            r.remaining().map_values(|p: &(String, TomlSubcommand)| (p.0@, p.1@)) == self.pairs(),
    {
        self.0.iter()
    }

    /// The entries as a slice, in ascending key order.
    pub fn entries(&self) -> (r: &[(String, TomlSubcommand)])
        ensures
            r@.map_values(|p: (String, TomlSubcommand)| (p.0@, p.1@)) == self.pairs(),
            crate::strmap::keys_sorted(crate::strmap::pair_keys(self.pairs())),
            crate::strmap::pairs_map(self.pairs()) == self@,
    {
        let r = self.0.entries();
        assert(r@.map_values(|p: (String, TomlSubcommand)| (p.0@, p.1@)) =~= crate::strmap::entries_view(r@));
        r
    }

    pub fn is_empty(&self) -> (r: bool)
        ensures
            r == (self@ =~= Map::<Seq<char>, SubSpec>::empty()),
            r == (self@.len() == 0),
            r == (self.pairs().len() == 0),
    {
        let n = self.0.len();
        self.0.is_empty()
    }

    pub fn len(&self) -> (r: usize)
        ensures
            r == self@.len(),
            r == self.pairs().len(),
    {
        self.0.len()
    }

    pub fn contains_key(&self, key: &str) -> (r: bool)
        ensures
            r == self@.contains_key(key@),
    {
        self.0.contains_key(key)
    }

    pub fn get(&self, key: &str) -> (r: Option<&TomlSubcommand>)
        ensures
            r is Some == self@.contains_key(key@),
            r matches Some(s) ==> s@ == self@[key@],
    {
        self.0.get(key)
    }

    pub fn insert(&mut self, key: String, sub: TomlSubcommand) -> (r: Option<TomlSubcommand>)
        ensures
            final(self)@ == old(self)@.insert(key@, sub@),
            r is Some == old(self)@.contains_key(key@),
            r matches Some(s) ==> s@ == old(self)@[key@],
    {
        self.0.insert(key, sub)
    }

    pub fn remove(&mut self, key: &str) -> (r: Option<TomlSubcommand>)
        ensures
            final(self)@ == old(self)@.remove(key@),
            r is Some == old(self)@.contains_key(key@),
            r matches Some(s) ==> s@ == old(self)@[key@],
    {
        self.0.remove(key)
    }

    /// The keys that start with `prefix`.
    pub fn prefixed_keys(&self, prefix: &str) -> (r: Vec<String>)
        ensures
            forall|k: Seq<char>|
                #![trigger views(r@).contains(k)]
                #![trigger self@.contains_key(k)]
                views(r@).contains(k) <==> (self@.contains_key(k) && prefixed(prefix@, k)),
    {
        let ghost m0 = self@;
        let mut keys: Vec<String> = Vec::new();
        {
            let e = self.entries();
            let ghost pp = self.pairs();
            let mut i: usize = 0;
            while i < e.len()
                invariant
                    i <= e@.len(),
                    e@.map_values(|q: (String, TomlSubcommand)| (q.0@, q.1@)) == pp,
                    crate::strmap::pairs_map(pp) == m0,
                    forall|k: Seq<char>|
                        views(keys@).contains(k) <==> exists|j: int|
                            0 <= j < i && #[trigger] pp[j].0 == k && prefixed(prefix@, k),
                decreases e@.len() - i,
            {
                proof {
                    assert(pp[i as int].0 == e@[i as int].0@);
                }
                if crate::text::starts_with(e[i].0.as_str(), prefix) {
                    let ghost before = views(keys@);
                    keys.push(e[i].0.clone());
                    proof {
                        assert(views(keys@) =~= before.push(e@[i as int].0@));
                        assert forall|k: Seq<char>| views(keys@).contains(k) <==> exists|j: int|
                            0 <= j < i + 1 && #[trigger] pp[j].0 == k && prefixed(prefix@, k) by {
                            if views(keys@).contains(k) {
                                if k == e@[i as int].0@ {
                                    assert(pp[i as int].0 == k);
                                } else {
                                    assert(before.contains(k)) by {
                                        let w = choose|w: int| 0 <= w < views(keys@).len() && #[trigger] views(keys@)[w] == k;
                                        assert(before[w] == k);
                                    }
                                }
                            }
                            if exists|j: int| 0 <= j < i + 1 && #[trigger] pp[j].0 == k && prefixed(prefix@, k) {
                                let j = choose|j: int| 0 <= j < i + 1 && #[trigger] pp[j].0 == k && prefixed(prefix@, k);
                                if j == i {
                                    assert(views(keys@)[before.len() as int] == k);
                                } else {
                                    assert(before.contains(k));
                                    let w = choose|w: int| 0 <= w < before.len() && #[trigger] before[w] == k;
                                    assert(views(keys@)[w] == k);
                                }
                            }
                        }
                    }
                } else {
                    proof {
                        assert forall|k: Seq<char>| views(keys@).contains(k) <==> exists|j: int|
                            0 <= j < i + 1 && #[trigger] pp[j].0 == k && prefixed(prefix@, k) by {
                            if exists|j: int| 0 <= j < i + 1 && #[trigger] pp[j].0 == k && prefixed(prefix@, k) {
                                let j = choose|j: int| 0 <= j < i + 1 && #[trigger] pp[j].0 == k && prefixed(prefix@, k);
                                if j == i {
                                    assert(false);
                                }
                            }
                        }
                    }
                }
                i = i + 1;
            }
        }
        let ghost ks = views(keys@);
        proof {
            assert forall|k: Seq<char>| ks.contains(k) <==> (m0.contains_key(k) && prefixed(prefix@, k)) by {
                if ks.contains(k) {
                    let j = choose|j: int| 0 <= j < self.pairs().len() && #[trigger] self.pairs()[j].0 == k
                        && prefixed(prefix@, k);
                    assert(crate::strmap::has_key(self.pairs(), k));
                }
                if m0.contains_key(k) && prefixed(prefix@, k) {
                    assert(crate::strmap::has_key(self.pairs(), k));
                    let j = crate::strmap::key_index(self.pairs(), k);
                    assert(self.pairs()[j].0 == k);
                }
            }
        }
        keys
    }

    /// Is there a key that starts with `prefix`?
    pub fn has_prefixed_key(&self, prefix: &str) -> (r: bool)
        ensures
            r == has_prefixed(self@, prefix@),
    {
        let keys = self.prefixed_keys(prefix);
        proof {
            if keys@.len() > 0 {
                let k = views(keys@)[0];
                assert(views(keys@).contains(k));
                assert(self@.contains_key(k) && prefixed(prefix@, k));
            }
            if has_prefixed(self@, prefix@) {
                let k = choose|k: Seq<char>| self@.contains_key(k) && prefixed(prefix@, k);
                assert(views(keys@).contains(k));
            }
        }
        keys.len() > 0
    }

    /// Removes every subcommand alias whose key starts with `prefix`;
    /// says whether there was one.
    pub fn remove_prefixed(&mut self, prefix: &str) -> (r: bool)
        ensures
            final(self)@ == strip_prefixed(old(self)@, prefix@),
            r == has_prefixed(old(self)@, prefix@),
            !r ==> *final(self) == *old(self),
    {
        let ghost m0 = self@;
        let keys = self.prefixed_keys(prefix);
        let ghost ks = views(keys@);
        let any = keys.len() > 0;
        let mut i: usize = 0;
        while i < keys.len()
            invariant
                i <= keys@.len(),
                ks == views(keys@),
                i == 0 ==> *self == *old(self),
                self@ == Map::new(
                    |k: Seq<char>| m0.contains_key(k) && !ks.take(i as int).contains(k),
                    |k: Seq<char>| m0[k],
                ),
            decreases keys@.len() - i,
        {
            self.remove(keys[i].as_str());
            proof {
                assert(ks.take(i + 1) =~= ks.take(i as int).push(ks[i as int]));
                assert forall|k: Seq<char>| ks.take(i + 1).contains(k) <==> (ks.take(i as int).contains(k) || k
                    == ks[i as int]) by {
                    if ks.take(i + 1).contains(k) {
                        let w = choose|w: int| 0 <= w < i + 1 && #[trigger] ks.take(i + 1)[w] == k;
                        if w < i {
                            assert(ks.take(i as int)[w] == k);
                        }
                    }
                    if ks.take(i as int).contains(k) {
                        let w = choose|w: int| 0 <= w < i && #[trigger] ks.take(i as int)[w] == k;
                        assert(ks.take(i + 1)[w] == k);
                    }
                    if k == ks[i as int] {
                        assert(ks.take(i + 1)[i as int] == k);
                    }
                }
                assert(self@ =~= Map::new(
                    |k: Seq<char>| m0.contains_key(k) && !ks.take(i + 1).contains(k),
                    |k: Seq<char>| m0[k],
                ));
            }
            i = i + 1;
        }
        proof {
            assert(ks.take(keys@.len() as int) =~= ks);
            assert(self@ =~= strip_prefixed(m0, prefix@));
            if any {
                let k = ks[0];
                assert(ks.contains(k));
                assert(m0.contains_key(k) && prefixed(prefix@, k));
            } else {
                if has_prefixed(m0, prefix@) {
                    let k = choose|k: Seq<char>| m0.contains_key(k) && prefixed(prefix@, k);
                    assert(ks.contains(k));
                }
            }
        }
        any
    }

    /// An equal copy.
    pub fn dup(&self) -> (r: Self)
        ensures
            r@ == self@,
            r.pairs() == self.pairs(),
    {
        SubcommandSet(self.0.dup_map())
    }

    /// Adds every entry of `other`, replacing same-keyed ones here.
    pub fn insert_all(&mut self, other: &SubcommandSet)
        ensures
            final(self)@ == old(self)@.union_prefer_right(other@),
    {
        self.0.insert_all(&other.0)
    }

    /// Checks `incoming` against this set: entries whose keys are new here,
    /// and, in key order, the keys whose expansion or description differ.
    pub fn merge_check(&self, incoming: &SubcommandSet) -> (r: (
        SubcommandSet,
        Vec<(String, TomlSubcommand, TomlSubcommand)>,
    ))
        ensures
            r.0@ == crate::strmap::new_entries(self@, incoming@),
            r.1@.map_values(|c: (String, TomlSubcommand, TomlSubcommand)| crate::strmap::triple_view(c))
                == crate::strmap::conflicts_in(
                self@,
                incoming.pairs(),
                |a: SubSpec, b: SubSpec| sub_differs(a, b),
            ),
    {
        let (fresh, triples) = self.0.merge_check(&incoming.0);
        proof {
            assert((|a: SubSpec, b: SubSpec| TomlSubcommand::differs(a, b)) =~= (|a: SubSpec, b: SubSpec| sub_differs(a, b)));
        }
        (SubcommandSet(fresh), triples)
    }

    /// The aliases grouped by program (the text before the first `:` of
    /// the key); within a group, entries keep key order.
    pub fn group_by_program(&self) -> (r: StrMap<String, SubcommandGroup>)
        ensures
            r.spec_map() == grouped(self.pairs()),
    {
        group_by_program(self)
    }
}

/// The aliases of `subs` grouped by program (see [`SubcommandSet::group_by_program`]).
pub fn group_by_program(subs: &SubcommandSet) -> (r: StrMap<String, SubcommandGroup>)
    ensures
        r.spec_map() == grouped(subs.pairs()),
{
    let items = subs.entries();
    let ghost pairs = subs.pairs();
    let mut groups: StrMap<String, SubcommandGroup> = StrMap::new();
    let mut i: usize = 0;
    proof {
        assert(pairs.take(0) =~= Seq::<(Seq<char>, SubSpec)>::empty());
    }
    while i < items.len()
        invariant
            i <= items@.len(),
            items@.map_values(|p: (String, TomlSubcommand)| (p.0@, p.1@)) == pairs,
            groups.spec_map() == grouped(pairs.take(i as int)),
        decreases items@.len() - i,
    {
        let key = &items[i].0;
        let sub = &items[i].1;
        let ghost before = pairs.take(i as int);
        let ghost after = pairs.take(i + 1);
        proof {
            assert(pairs[i as int] == (key@, sub@));
            assert(after.drop_last() =~= before);
            assert(after.last() == (key@, sub@));
        }
        let parts = split_char(key.as_str(), ':');
        proof {
            crate::text::lemma_split_nonempty(key@, ':');
        }
        let program = parts[0].clone();
        let mut shorts: Vec<String> = Vec::new();
        let mut j: usize = 1;
        while j < parts.len()
            invariant
                1 <= j <= parts@.len(),
                views(parts@) == split_spec(key@, ':'),
                views(shorts@) == split_spec(key@, ':').subrange(1, j as int),
            decreases parts@.len() - j,
        {
            let ghost sb = shorts@;
            let piece = parts[j].clone();
            shorts.push(piece);
            proof {
                assert(shorts@ =~= sb.push(piece));
                assert(views(shorts@) =~= views(sb).push(piece@));
                assert(views(parts@)[j as int] == piece@);
                assert(split_spec(key@, ':').subrange(1, j + 1) =~= split_spec(key@, ':').subrange(1, j as int).push(split_spec(key@, ':')[j as int]));
                assert(views(shorts@) =~= split_spec(key@, ':').subrange(1, j + 1));
            }
            j = j + 1;
        }
        proof {
            assert(split_spec(key@, ':').subrange(1, parts@.len() as int) =~= split_spec(key@, ':').skip(1));
        }
        let entry = SubcommandEntry {
            program: program.clone(),
            short_subcommands: shorts,
            long_subcommands: dup_strings(sub.expansions()),
            description: match sub.description() {
                Some(d) => Some(crate::text::string_from(d)),
                None => None,
            },
        };
        proof {
            assert(entry@ == entry_spec(key@, sub@));
        }
        let ghost gm = groups.spec_map();
        let removed = groups.remove(program.as_str());
        let mut list = match removed {
            Some(g) => g,
            None => SubcommandGroup(Vec::new()),
        };
        proof {
            assert(program@ == entry@.program);
            if gm.contains_key(program@) {
                assert(list@ == gm[program@]);
            } else {
                assert(list@ =~= Seq::<EntrySpec>::empty());
            }
        }
        let ghost lb = list.0@;
        list.0.push(entry);
        proof {
            assert(list.0@ =~= lb.push(entry));
            assert(list@ =~= lb.map_values(|e: SubcommandEntry| e@).push(entry@));
        }
        groups.insert(program, list);
        proof {
            let g = grouped(before);
            let e = entry_spec(key@, sub@);
            assert(gm == g);
            assert(grouped(after) == g.insert(e.program, (if g.contains_key(e.program) { g[e.program] } else { Seq::empty() }).push(e)));
            assert(groups.spec_map() =~= grouped(after));
        }
        i = i + 1;
    }
    proof {
        assert(pairs.take(items@.len() as int) =~= pairs);
    }
    groups
}

} // verus!

//! An ordered map keyed by strings, kept sorted by code-point order.
//!
//! It plays the part of a `BTreeMap<String, V>`: iteration yields the
//! entries in ascending key order, and each key occurs once.
use vstd::prelude::*;
use vstd::std_specs::iter::IteratorSpec;

use crate::text::{
    lemma_seq_lt_asymmetric, lemma_seq_lt_irreflexive, lemma_seq_lt_total, lemma_seq_lt_transitive,
    seq_lt, str_equal, str_lt,
};

verus! {

/// The keys of a pair sequence.
pub open spec fn pair_keys<V>(s: Seq<(Seq<char>, V)>) -> Seq<Seq<char>> {
    s.map_values(|p: (Seq<char>, V)| p.0)
}

/// Keys strictly ascending, hence distinct.
pub open spec fn keys_sorted(ks: Seq<Seq<char>>) -> bool {
    forall|i: int, j: int| 0 <= i < j < ks.len() ==> seq_lt(#[trigger] ks[i], #[trigger] ks[j])
}

/// Does some pair carry key `k`?
pub open spec fn has_key<V>(s: Seq<(Seq<char>, V)>, k: Seq<char>) -> bool {
    exists|i: int| 0 <= i < s.len() && #[trigger] s[i].0 == k
}

/// An index whose pair carries key `k` (meaningful when `has_key`).
pub open spec fn key_index<V>(s: Seq<(Seq<char>, V)>, k: Seq<char>) -> int {
    choose|i: int| 0 <= i < s.len() && #[trigger] s[i].0 == k
}

/// The map denoted by a pair sequence with distinct keys.
pub open spec fn pairs_map<V>(s: Seq<(Seq<char>, V)>) -> Map<Seq<char>, V> {
    Map::new(|k: Seq<char>| has_key(s, k), |k: Seq<char>| s[key_index(s, k)].1)
}

/// View of stored entries.
pub open spec fn entries_view<K: View<V = Seq<char>>, V: View>(e: Seq<(K, V)>) -> Seq<(Seq<char>, V::V)> {
    e.map_values(|p: (K, V)| (p.0@, p.1@))
}

/// With distinct keys, the pair at index `i` is what the map holds for its key.
pub proof fn lemma_pairs_map_at<V>(s: Seq<(Seq<char>, V)>, i: int)
    requires
        keys_sorted(pair_keys(s)),
        0 <= i < s.len(),
    ensures
        pairs_map(s).contains_key(s[i].0),
        pairs_map(s)[s[i].0] == s[i].1,
{
    assert(s[i].0 == s[i].0);
    assert(has_key(s, s[i].0));
    let j = key_index(s, s[i].0);
    if j != i {
        if j < i {
            assert(seq_lt(pair_keys(s)[j], pair_keys(s)[i]));
        } else {
            assert(seq_lt(pair_keys(s)[i], pair_keys(s)[j]));
        }
        lemma_seq_lt_irreflexive(s[i].0);
    }
}

/// Two sorted pair sequences denoting the same map are the same sequence.
pub proof fn lemma_sorted_pairs_determined<V>(a: Seq<(Seq<char>, V)>, b: Seq<(Seq<char>, V)>)
    requires
        keys_sorted(pair_keys(a)),
        keys_sorted(pair_keys(b)),
        pairs_map(a) =~= pairs_map(b),
    ensures
        a == b,
    decreases a.len() + b.len(),
{
    if a.len() == 0 {
        if b.len() > 0 {
            lemma_pairs_map_at(b, 0);
        }
        assert(a =~= b);
    } else if b.len() == 0 {
        lemma_pairs_map_at(a, 0);
    } else {
        let la = a.last();
        let lb = b.last();
        lemma_pairs_map_at(a, a.len() - 1);
        lemma_pairs_map_at(b, b.len() - 1);
        // The last key of each is the greatest key of the common map.
        let ia = key_index(b, la.0);
        let ib = key_index(a, lb.0);
        if la.0 != lb.0 {
            lemma_seq_lt_total(la.0, lb.0);
            if seq_lt(la.0, lb.0) {
                // lb.0 is in a, at some index <= last, so lb.0 <= la.0
                assert(has_key(a, lb.0));
                if ib < a.len() - 1 {
                    assert(seq_lt(pair_keys(a)[ib], pair_keys(a)[a.len() - 1]));
                    lemma_seq_lt_asymmetric(la.0, lb.0);
                } else {
                    assert(a[ib].0 == lb.0);
                }
            } else {
                assert(has_key(b, la.0));
                if ia < b.len() - 1 {
                    assert(seq_lt(pair_keys(b)[ia], pair_keys(b)[b.len() - 1]));
                    lemma_seq_lt_asymmetric(la.0, lb.0);
                } else {
                    assert(b[ia].0 == la.0);
                }
            }
        }
        assert(la.0 == lb.0);
        assert(la.1 == lb.1);
        let a2 = a.drop_last();
        let b2 = b.drop_last();
        assert(pair_keys(a2) =~= pair_keys(a).drop_last());
        assert(pair_keys(b2) =~= pair_keys(b).drop_last());
        assert forall|k: Seq<char>| #[trigger] pairs_map(a2).contains_key(k) == pairs_map(b2).contains_key(k) && (pairs_map(a2).contains_key(k) ==> pairs_map(a2)[k] == pairs_map(b2)[k]) by {
            if has_key(a2, k) {
                let i = key_index(a2, k);
                assert(a[i].0 == k);
                lemma_pairs_map_at(a2, i);
                lemma_pairs_map_at(a, i);
                assert(pairs_map(a).contains_key(k));
                let j = key_index(b, k);
                assert(has_key(b, k));
                lemma_pairs_map_at(b, j);
                if j == b.len() - 1 {
                    assert(seq_lt(pair_keys(a)[i], pair_keys(a)[a.len() - 1]));
                    lemma_seq_lt_irreflexive(k);
                }
                assert(b2[j].0 == k);
                lemma_pairs_map_at(b2, j);
            } else if has_key(b2, k) {
                let j = key_index(b2, k);
                assert(b[j].0 == k);
                lemma_pairs_map_at(b, j);
                assert(pairs_map(b).contains_key(k));
                assert(has_key(a, k));
                let i = key_index(a, k);
                if i == a.len() - 1 {
                    assert(seq_lt(pair_keys(b)[j], pair_keys(b)[b.len() - 1]));
                    lemma_seq_lt_irreflexive(k);
                }
                assert(a2[i].0 == k);
                assert(has_key(a2, k));
            }
        }
        assert(pairs_map(a2) =~= pairs_map(b2));
        lemma_sorted_pairs_determined(a2, b2);
        assert(a =~= a2.push(la));
        assert(b =~= b2.push(lb));
    }
}

/// A prefix of a sorted pair sequence is sorted.
pub proof fn lemma_take_sorted<V>(s: Seq<(Seq<char>, V)>, n: int)
    requires
        keys_sorted(pair_keys(s)),
        0 <= n <= s.len(),
    ensures
        keys_sorted(pair_keys(s.take(n))),
{
    let t = s.take(n);
    assert forall|i: int, j: int| 0 <= i < j < pair_keys(t).len() implies seq_lt(#[trigger] pair_keys(t)[i], #[trigger] pair_keys(t)[j]) by {
        assert(pair_keys(t)[i] == pair_keys(s)[i]);
        assert(pair_keys(t)[j] == pair_keys(s)[j]);
    }
}

/// Appending a pair with a key beyond all others inserts it into the map.
pub proof fn lemma_pairs_map_push<V>(s: Seq<(Seq<char>, V)>, p: (Seq<char>, V))
    requires
        keys_sorted(pair_keys(s.push(p))),
    ensures
        keys_sorted(pair_keys(s)),
        pairs_map(s.push(p)) == pairs_map(s).insert(p.0, p.1),
{
    let t = s.push(p);
    lemma_take_sorted(t, s.len() as int);
    assert(t.take(s.len() as int) =~= s);
    lemma_pairs_map_at(t, s.len() as int);
    assert forall|k: Seq<char>| #[trigger] pairs_map(t).contains_key(k) == pairs_map(s).insert(p.0, p.1).contains_key(k) && (pairs_map(t).contains_key(k) ==> pairs_map(t)[k] == pairs_map(s).insert(p.0, p.1)[k]) by {
        if has_key(t, k) {
            let j = key_index(t, k);
            lemma_pairs_map_at(t, j);
            if j < s.len() {
                assert(s[j] == t[j]);
                lemma_pairs_map_at(s, j);
                assert(seq_lt(pair_keys(t)[j], pair_keys(t)[s.len() as int]));
                if k == p.0 {
                    lemma_seq_lt_irreflexive(k);
                }
            }
        }
        if has_key(s, k) {
            let j = key_index(s, k);
            assert(t[j].0 == k);
        }
        if k == p.0 {
            assert(t[s.len() as int].0 == k);
        }
    }
    assert(pairs_map(t) =~= pairs_map(s).insert(p.0, p.1));
}

/// Folding inserts over a pair sequence, later pairs overriding earlier ones.
pub open spec fn fold_inserts<V>(m: Map<Seq<char>, V>, s: Seq<(Seq<char>, V)>) -> Map<Seq<char>, V>
    decreases s.len(),
{
    if s.len() == 0 {
        m
    } else {
        fold_inserts(m, s.drop_last()).insert(s.last().0, s.last().1)
    }
}

/// For distinct keys, folding all inserts over the empty map gives the pair map.
pub proof fn lemma_fold_inserts_sorted<V>(s: Seq<(Seq<char>, V)>, m: Map<Seq<char>, V>)
    requires
        keys_sorted(pair_keys(s)),
    ensures
        fold_inserts(m, s) == m.union_prefer_right(pairs_map(s)),
    decreases s.len(),
{
    if s.len() == 0 {
        assert(pairs_map(s) =~= Map::<Seq<char>, V>::empty());
        assert(m.union_prefer_right(pairs_map(s)) =~= m);
    } else {
        let d = s.drop_last();
        assert(d.push(s.last()) =~= s);
        lemma_pairs_map_push(d, s.last());
        lemma_fold_inserts_sorted(d, m);
        assert(fold_inserts(m, s) =~= m.union_prefer_right(pairs_map(s)));
    }
}

/// The ascending-key pair sequence of a map (unique where it exists).
pub open spec fn sorted_pairs<V>(m: Map<Seq<char>, V>) -> Seq<(Seq<char>, V)> {
    choose|s: Seq<(Seq<char>, V)>| keys_sorted(pair_keys(s)) && pairs_map(s) == m
}

/// A sorted pair sequence is the sorted pairs of the map it denotes.
pub proof fn lemma_sorted_pairs_of<V>(s: Seq<(Seq<char>, V)>)
    requires
        keys_sorted(pair_keys(s)),
    ensures
        sorted_pairs(pairs_map(s)) == s,
{
    assert(keys_sorted(pair_keys(s)) && pairs_map(s) == pairs_map(s));
    let t = sorted_pairs(pairs_map(s));
    lemma_sorted_pairs_determined(t, s);
}

/// Values that can be duplicated into an equal value.
pub trait Dup: Sized + View {
    fn dup(&self) -> (r: Self)
        ensures
            r@ == self@;
}

impl Dup for String {
    fn dup(&self) -> (r: Self) {
        self.clone()
    }
}

/// Values that a merge can compare for a real difference.
pub trait Mergeable: Dup {
    /// Do the two values differ in a way a merge must report?
    spec fn differs(a: Self::V, b: Self::V) -> bool;

    fn differs_from(&self, other: &Self) -> (r: bool)
        ensures
            r == Self::differs(self@, other@);
}

/// The incoming entries whose keys are not yet present.
pub open spec fn new_entries<V>(current: Map<Seq<char>, V>, incoming: Map<Seq<char>, V>) -> Map<
    Seq<char>,
    V,
> {
    Map::new(
        |k: Seq<char>| incoming.contains_key(k) && !current.contains_key(k),
        |k: Seq<char>| incoming[k],
    )
}

/// In incoming order: `(key, current value, incoming value)` for every key
/// present on both sides whose values differ.
pub open spec fn conflicts_in<V>(
    current: Map<Seq<char>, V>,
    incoming: Seq<(Seq<char>, V)>,
    differs: spec_fn(V, V) -> bool,
) -> Seq<(Seq<char>, V, V)>
    decreases incoming.len(),
{
    if incoming.len() == 0 {
        Seq::empty()
    } else {
        let rest = conflicts_in(current, incoming.drop_last(), differs);
        let p = incoming.last();
        if current.contains_key(p.0) && differs(current[p.0], p.1) {
            rest.push((p.0, current[p.0], p.1))
        } else {
            rest
        }
    }
}

/// A merge check sorts each incoming key into exactly one outcome: new
/// when the key is absent here, a conflict when both sides hold different
/// values, and skipped otherwise (identical entries are silently skipped).
pub proof fn law_merge_check_partition<V>(
    current: Map<Seq<char>, V>,
    incoming: Seq<(Seq<char>, V)>,
    differs: spec_fn(V, V) -> bool,
    k: Seq<char>,
)
    requires
        keys_sorted(pair_keys(incoming)),
    ensures
        new_entries(current, pairs_map(incoming)).contains_key(k) <==> (pairs_map(incoming).contains_key(k)
            && !current.contains_key(k)),
        new_entries(current, pairs_map(incoming)).contains_key(k) ==> new_entries(current, pairs_map(incoming))[k]
            == pairs_map(incoming)[k],
        conflicts_in(current, incoming, differs).map_values(|c: (Seq<char>, V, V)| c.0).contains(k) <==> (
        pairs_map(incoming).contains_key(k) && current.contains_key(k) && differs(current[k], pairs_map(incoming)[k])),
    decreases incoming.len(),
{
    let f = |c: (Seq<char>, V, V)| c.0;
    if incoming.len() == 0 {
        assert(conflicts_in(current, incoming, differs).map_values(f) =~= Seq::<Seq<char>>::empty());
        assert(!pairs_map(incoming).contains_key(k));
    } else {
        let d = incoming.drop_last();
        let p = incoming.last();
        assert(d.push(p) =~= incoming);
        lemma_pairs_map_push(d, p);
        law_merge_check_partition(current, d, differs, k);
        let rest = conflicts_in(current, d, differs);
        let all = conflicts_in(current, incoming, differs);
        if current.contains_key(p.0) && differs(current[p.0], p.1) {
            assert(all.map_values(f) =~= rest.map_values(f).push(p.0));
            lemma_push_contains(rest.map_values(f), p.0, k);
        } else {
            assert(all.map_values(f) =~= rest.map_values(f));
        }
        if k == p.0 {
            // the last key is new to the prefix
            if pairs_map(d).contains_key(k) {
                let j = key_index(d, k);
                assert(d[j].0 == k);
                assert(pair_keys(incoming)[j] == d[j].0);
                assert(pair_keys(incoming)[incoming.len() - 1] == p.0);
                assert(seq_lt(pair_keys(incoming)[j], pair_keys(incoming)[incoming.len() - 1]));
                lemma_seq_lt_irreflexive(k);
            }
            if rest.map_values(f).contains(k) {
                assert(pairs_map(d).contains_key(k));
            }
        }
    }
}

proof fn lemma_push_contains<A>(s: Seq<A>, x: A, k: A)
    ensures
        s.push(x).contains(k) <==> (s.contains(k) || x == k),
{
    if s.contains(k) {
        let j = choose|j: int| 0 <= j < s.len() && s[j] == k;
        assert(s.push(x)[j] == k);
    }
    if x == k {
        assert(s.push(x)[s.len() as int] == k);
    }
    if s.push(x).contains(k) {
        let j = choose|j: int| 0 <= j < s.push(x).len() && s.push(x)[j] == k;
        if j < s.len() {
            assert(s[j] == k);
        }
    }
}

/// An ordered map gives back what was stored under a key, forgets a
/// removed key, and leaves every other key as it was; adding a key that
/// was absent and then removing it restores the map.
pub proof fn law_store_read_back<V>(m: Map<Seq<char>, V>, k: Seq<char>, v: V, j: Seq<char>)
    ensures
        m.insert(k, v).contains_key(k) && m.insert(k, v)[k] == v,
        !m.remove(k).contains_key(k),
        j != k ==> (m.insert(k, v).contains_key(j) == m.contains_key(j) && m.remove(k).contains_key(j)
            == m.contains_key(j)),
        j != k && m.contains_key(j) ==> m.insert(k, v)[j] == m[j] && m.remove(k)[j] == m[j],
        !m.contains_key(k) ==> m.insert(k, v).remove(k) == m,
{
    if !m.contains_key(k) {
        assert(m.insert(k, v).remove(k) =~= m);
    }
}

/// View of a conflict triple.
pub open spec fn triple_view<K: View<V = Seq<char>>, V: View>(c: (K, V, V)) -> (Seq<char>, V::V, V::V) {
    (c.0@, c.1@, c.2@)
}

impl Mergeable for String {
    open spec fn differs(a: Seq<char>, b: Seq<char>) -> bool {
        a != b
    }

    fn differs_from(&self, other: &Self) -> (r: bool) {
        !crate::text::str_equal(self.as_str(), other.as_str())
    }
}

/// Key types whose view is their text.
pub trait StrKey: Sized + View<V = Seq<char>> {
    fn as_key(&self) -> (r: &str)
        ensures
            r@ == self@;
}

impl StrKey for String {
    fn as_key(&self) -> (r: &str) {
        self.as_str()
    }
}


/// Ordered string-keyed map.
#[derive(Debug)]
pub struct StrMap<K: StrKey, V: View> {
    entries: Vec<(K, V)>,
}

impl<K: StrKey, V: View> StrMap<K, V> {
    #[verifier::type_invariant]
    spec fn sorted_inv(self) -> bool {
        keys_sorted(pair_keys(entries_view(self.entries@)))
    }

    /// Entries in ascending key order.
    pub closed spec fn spec_pairs(&self) -> Seq<(Seq<char>, V::V)> {
        entries_view(self.entries@)
    }

    /// The map the entries denote.
    pub open spec fn spec_map(&self) -> Map<Seq<char>, V::V> {
        pairs_map(self.spec_pairs())
    }

    /// The keys in ascending order.
    pub open spec fn spec_keys(&self) -> Seq<Seq<char>> {
        pair_keys(self.spec_pairs())
    }

    pub fn new() -> (r: Self)
        ensures
            r.spec_pairs() == Seq::<(Seq<char>, V::V)>::empty(),
            r.spec_map() == Map::<Seq<char>, V::V>::empty(),
    {
        let r = StrMap { entries: Vec::new() };
        assert(r.spec_pairs() =~= Seq::<(Seq<char>, V::V)>::empty());
        assert(r.spec_map() =~= Map::<Seq<char>, V::V>::empty());
        r
    }

    /// The entries, in ascending key order.
    pub fn entries(&self) -> (r: &[(K, V)])
        ensures
            entries_view(r@) == self.spec_pairs(),
            keys_sorted(self.spec_keys()),
    {
        proof {
            use_type_invariant(self);
        }
        self.entries.as_slice()
    }

    /// Iterator over the entries in ascending key order.
    pub fn iter(&self) -> (r: std::slice::Iter<'_, (K, V)>)
        ensures
            r.remaining().map_values(|p: &(K, V)| (p.0@, p.1@)) == self.spec_pairs(),
    {
        broadcast use vstd::std_specs::slice::axiom_spec_slice_iter;
        let r = self.entries.as_slice().iter();
        assert(r.remaining().map_values(|p: &(K, V)| (p.0@, p.1@)) =~= self.spec_pairs());
        r
    }

    pub fn len(&self) -> (r: usize)
        ensures
            r == self.spec_pairs().len(),
            r == self.spec_map().len(),
    {
        proof {
            use_type_invariant(self);
            self.lemma_map_len();
        }
        self.entries.len()
    }

    pub fn is_empty(&self) -> (r: bool)
        ensures
            r == (self.spec_pairs().len() == 0),
            r == (self.spec_map() =~= Map::<Seq<char>, V::V>::empty()),
    {
        proof {
            use_type_invariant(self);
            if self.spec_pairs().len() > 0 {
                lemma_pairs_map_at(self.spec_pairs(), 0);
            }
        }
        self.entries.len() == 0
    }

    proof fn lemma_map_len(&self)
        requires
            keys_sorted(self.spec_keys()),
        ensures
            self.spec_map().len() == self.spec_pairs().len(),
    {
        let s = self.spec_pairs();
        let ks = pair_keys(s);
        assert(ks.no_duplicates()) by {
            assert forall|i: int, j: int| 0 <= i < ks.len() && 0 <= j < ks.len() && i != j implies ks[i] != ks[j] by {
                if i < j {
                    assert(seq_lt(ks[i], ks[j]));
                } else {
                    assert(seq_lt(ks[j], ks[i]));
                }
                lemma_seq_lt_irreflexive(ks[i]);
            }
        }
        assert(self.spec_map().dom() =~= ks.to_set()) by {
            assert forall|k: Seq<char>| self.spec_map().dom().contains(k) == ks.to_set().contains(k) by {
                if has_key(s, k) {
                    let i = key_index(s, k);
                    assert(ks[i] == k);
                }
                if ks.contains(k) {
                    let i = choose|i: int| 0 <= i < ks.len() && ks[i] == k;
                    assert(s[i].0 == k);
                }
            }
        }
        ks.unique_seq_to_set();
    }

    /// Position of `k`: `Ok(i)` where it sits, or `Err(i)` where it would go.
    fn locate(&self, k: &str) -> (r: Result<usize, usize>)
        ensures
            match r {
                Ok(i) => i < self.spec_pairs().len() && self.spec_keys()[i as int] == k@,
                Err(i) => i <= self.spec_pairs().len() && (forall|j: int| 0 <= j < i ==> seq_lt(#[trigger] self.spec_keys()[j], k@)) && (forall|j: int| i <= j < self.spec_pairs().len() ==> seq_lt(k@, #[trigger] self.spec_keys()[j])),
            },
    {
        proof {
            use_type_invariant(self);
        }
        let n = self.entries.len();
        let mut i: usize = 0;
        while i < n
            invariant
                n == self.spec_pairs().len(),
                i <= n,
                keys_sorted(self.spec_keys()),
                forall|j: int| 0 <= j < i ==> seq_lt(#[trigger] self.spec_keys()[j], k@),
            decreases n - i,
        {
            let key = &self.entries[i].0;
            assert(key@ == self.spec_keys()[i as int]);
            if str_lt(key.as_key(), k) {
                i = i + 1;
            } else {
                if str_equal(key.as_key(), k) {
                    return Ok(i);
                }
                proof {
                    lemma_seq_lt_total(key@, k@);
                    assert forall|j: int| i <= j < self.spec_pairs().len() implies seq_lt(k@, #[trigger] self.spec_keys()[j]) by {
                        if j > i {
                            assert(seq_lt(self.spec_keys()[i as int], self.spec_keys()[j]));
                            lemma_seq_lt_transitive(k@, self.spec_keys()[i as int], self.spec_keys()[j]);
                        }
                    }
                }
                return Err(i);
            }
        }
        Err(i)
    }

    pub fn contains_key(&self, k: &str) -> (r: bool)
        ensures
            r == self.spec_map().contains_key(k@),
    {
        proof {
            use_type_invariant(self);
        }
        match self.locate(k) {
            Ok(i) => {
                proof {
                    lemma_pairs_map_at(self.spec_pairs(), i as int);
                }
                true
            },
            Err(i) => {
                proof {
                    if has_key(self.spec_pairs(), k@) {
                        let j = key_index(self.spec_pairs(), k@);
                        assert(self.spec_keys()[j] == k@);
                        lemma_seq_lt_irreflexive(k@);
                    }
                }
                false
            },
        }
    }

    pub fn get(&self, k: &str) -> (r: Option<&V>)
        ensures
            r is Some == self.spec_map().contains_key(k@),
            r matches Some(v) ==> v@ == self.spec_map()[k@],
    {
        proof {
            use_type_invariant(self);
        }
        match self.locate(k) {
            Ok(i) => {
                proof {
                    lemma_pairs_map_at(self.spec_pairs(), i as int);
                }
                Some(&self.entries[i].1)
            },
            Err(i) => {
                proof {
                    if has_key(self.spec_pairs(), k@) {
                        let j = key_index(self.spec_pairs(), k@);
                        assert(self.spec_keys()[j] == k@);
                        lemma_seq_lt_irreflexive(k@);
                    }
                }
                None
            },
        }
    }

    /// Inserts or replaces; gives back the value that was replaced.
    pub fn insert(&mut self, k: K, v: V) -> (r: Option<V>)
        ensures
            final(self).spec_map() == old(self).spec_map().insert(k@, v@),
            r is Some == old(self).spec_map().contains_key(k@),
            r matches Some(ov) ==> ov@ == old(self).spec_map()[k@],
    {
        proof {
            use_type_invariant(&*self);
        }
        let ghost old_pairs = self.spec_pairs();
        match self.locate(k.as_key()) {
            Ok(i) => {
                proof {
                    lemma_pairs_map_at(old_pairs, i as int);
                    assert(self.spec_keys()[i as int] == k@);
                    assert(old_pairs[i as int].0 == k@);
                }
                let mut entries: Vec<(K, V)> = Vec::new();
                std::mem::swap(&mut entries, &mut self.entries);
                let (ok, ov) = entries.remove(i);
                let ghost ovv = ov@;
                entries.insert(i, (ok, v));
                let ghost new_pairs = entries_view(entries@);
                proof {
                    assert(new_pairs =~= old_pairs.update(i as int, (k@, v@)));
                    assert(pair_keys(new_pairs) =~= pair_keys(old_pairs));
                    lemma_pairs_map_at(new_pairs, i as int);
                    assert(pairs_map(new_pairs) =~= pairs_map(old_pairs).insert(k@, v@)) by {
                        assert forall|key: Seq<char>| #[trigger] pairs_map(new_pairs).contains_key(key) == pairs_map(old_pairs).insert(k@, v@).contains_key(key) && (pairs_map(new_pairs).contains_key(key) ==> pairs_map(new_pairs)[key] == pairs_map(old_pairs).insert(k@, v@)[key]) by {
                            if has_key(new_pairs, key) {
                                let j = key_index(new_pairs, key);
                                lemma_pairs_map_at(new_pairs, j);
                                if j != i {
                                    lemma_pairs_map_at(old_pairs, j);
                                }
                            }
                            if has_key(old_pairs, key) {
                                let j = key_index(old_pairs, key);
                                assert(new_pairs[j].0 == key);
                            }
                        }
                    }
                }
                self.entries = entries;
                Some(ov)
            },
            Err(i) => {
                proof {
                    if has_key(old_pairs, k@) {
                        let j = key_index(old_pairs, k@);
                        assert(pair_keys(old_pairs)[j] == k@);
                        lemma_seq_lt_irreflexive(k@);
                    }
                    assert(i <= old_pairs.len());
                    assert(forall|j: int| 0 <= j < i ==> seq_lt(#[trigger] self.spec_keys()[j], k@));
                    assert(self.spec_keys() == pair_keys(old_pairs));
                    assert(forall|j: int| 0 <= j < i ==> seq_lt(#[trigger] pair_keys(old_pairs)[j], k@));
                    assert(forall|j: int| i <= j < old_pairs.len() ==> seq_lt(k@, #[trigger] pair_keys(old_pairs)[j]));
                }
                let mut entries: Vec<(K, V)> = Vec::new();
                std::mem::swap(&mut entries, &mut self.entries);
                let ghost kv = k@;
                entries.insert(i, (k, v));
                let ghost new_pairs = entries_view(entries@);
                proof {
                    assert(new_pairs =~= old_pairs.insert(i as int, (kv, v@)));
                    let nk = pair_keys(new_pairs);
                    let ok = pair_keys(old_pairs);
                    assert forall|a: int, b: int| 0 <= a < b < nk.len() implies seq_lt(#[trigger] nk[a], #[trigger] nk[b]) by {
                        if b < i {
                            assert(nk[a] == ok[a] && nk[b] == ok[b]);
                        } else if b == i {
                            assert(nk[a] == ok[a]);
                        } else if a == i {
                            assert(nk[b] == ok[b - 1]);
                        } else if a < i {
                            assert(nk[a] == ok[a] && nk[b] == ok[b - 1]);
                            assert(seq_lt(ok[a], kv));
                            assert(seq_lt(kv, ok[b - 1]));
                            lemma_seq_lt_transitive(ok[a], kv, ok[b - 1]);
                        } else {
                            assert(nk[a] == ok[a - 1] && nk[b] == ok[b - 1]);
                        }
                    }
                    assert(pairs_map(new_pairs) =~= pairs_map(old_pairs).insert(kv, v@)) by {
                        assert forall|key: Seq<char>| #[trigger] pairs_map(new_pairs).contains_key(key) == pairs_map(old_pairs).insert(kv, v@).contains_key(key) && (pairs_map(new_pairs).contains_key(key) ==> pairs_map(new_pairs)[key] == pairs_map(old_pairs).insert(kv, v@)[key]) by {
                            if has_key(new_pairs, key) {
                                let j = key_index(new_pairs, key);
                                lemma_pairs_map_at(new_pairs, j);
                                if j < i {
                                    assert(old_pairs[j] == new_pairs[j]);
                                    lemma_pairs_map_at(old_pairs, j);
                                } else if j > i {
                                    assert(old_pairs[j - 1] == new_pairs[j]);
                                    lemma_pairs_map_at(old_pairs, j - 1);
                                }
                            }
                            if has_key(old_pairs, key) {
                                let j = key_index(old_pairs, key);
                                if j < i {
                                    assert(new_pairs[j].0 == key);
                                } else {
                                    assert(new_pairs[j + 1].0 == key);
                                }
                            }
                            if key == kv {
                                assert(new_pairs[i as int].0 == key);
                            }
                        }
                    }
                }
                self.entries = entries;
                None
            },
        }
    }

    /// Removes `k`; gives back its value if it was present.
    pub fn remove(&mut self, k: &str) -> (r: Option<V>)
        ensures
            final(self).spec_map() == old(self).spec_map().remove(k@),
            r is Some == old(self).spec_map().contains_key(k@),
            r matches Some(ov) ==> ov@ == old(self).spec_map()[k@],
    {
        proof {
            use_type_invariant(&*self);
        }
        let ghost old_pairs = self.spec_pairs();
        match self.locate(k) {
            Ok(i) => {
                proof {
                    lemma_pairs_map_at(old_pairs, i as int);
                }
                let mut entries: Vec<(K, V)> = Vec::new();
                std::mem::swap(&mut entries, &mut self.entries);
                let (_ok, ov) = entries.remove(i);
                let ghost new_pairs = entries_view(entries@);
                proof {
                    assert(new_pairs =~= old_pairs.remove(i as int));
                    let nk = pair_keys(new_pairs);
                    let okk = pair_keys(old_pairs);
                    assert forall|a: int, b: int| 0 <= a < b < nk.len() implies seq_lt(#[trigger] nk[a], #[trigger] nk[b]) by {
                        if b < i {
                            assert(nk[a] == okk[a] && nk[b] == okk[b]);
                        } else if a < i {
                            assert(nk[a] == okk[a] && nk[b] == okk[b + 1]);
                        } else {
                            assert(nk[a] == okk[a + 1] && nk[b] == okk[b + 1]);
                        }
                    }
                    assert(pairs_map(new_pairs) =~= pairs_map(old_pairs).remove(k@)) by {
                        assert forall|key: Seq<char>| #[trigger] pairs_map(new_pairs).contains_key(key) == pairs_map(old_pairs).remove(k@).contains_key(key) && (pairs_map(new_pairs).contains_key(key) ==> pairs_map(new_pairs)[key] == pairs_map(old_pairs).remove(k@)[key]) by {
                            if has_key(new_pairs, key) {
                                let j = key_index(new_pairs, key);
                                lemma_pairs_map_at(new_pairs, j);
                                if j < i {
                                    lemma_pairs_map_at(old_pairs, j);
                                    assert(seq_lt(okk[j], okk[i as int]));
                                } else {
                                    lemma_pairs_map_at(old_pairs, j + 1);
                                    assert(seq_lt(okk[i as int], okk[j + 1]));
                                }
                                lemma_seq_lt_irreflexive(k@);
                            }
                            if has_key(old_pairs, key) && key != k@ {
                                let j = key_index(old_pairs, key);
                                if j < i {
                                    assert(new_pairs[j].0 == key);
                                } else {
                                    assert(j != i);
                                    assert(new_pairs[j - 1].0 == key);
                                }
                            }
                        }
                    }
                }
                self.entries = entries;
                Some(ov)
            },
            Err(i) => {
                proof {
                    assert(forall|j: int| 0 <= j < i ==> seq_lt(#[trigger] self.spec_keys()[j], k@));
                    assert(forall|j: int| i <= j < old_pairs.len() ==> seq_lt(k@, #[trigger] self.spec_keys()[j]));
                    if has_key(old_pairs, k@) {
                        let j = key_index(old_pairs, k@);
                        assert(self.spec_keys()[j] == k@);
                        lemma_seq_lt_irreflexive(k@);
                    }
                    assert(!self.spec_map().contains_key(k@));
                    assert(self.spec_map().remove(k@) =~= self.spec_map());
                }
                None
            },
        }
    }
}

impl<K: StrKey + Dup, V: Dup> StrMap<K, V> {
    /// An equal copy.
    pub fn dup_map(&self) -> (r: Self)
        ensures
            r.spec_pairs() == self.spec_pairs(),
            r.spec_map() == self.spec_map(),
    {
        proof {
            use_type_invariant(self);
        }
        let mut entries: Vec<(K, V)> = Vec::new();
        let mut i: usize = 0;
        while i < self.entries.len()
            invariant
                i <= self.entries@.len(),
                entries_view(entries@) == self.spec_pairs().take(i as int),
                self.spec_pairs().len() == self.entries@.len(),
            decreases self.entries@.len() - i,
        {
            let ghost before = entries@;
            let k = self.entries[i].0.dup();
            let v = self.entries[i].1.dup();
            assert((k@, v@) == self.spec_pairs()[i as int]);
            entries.push((k, v));
            assert(entries@ =~= before.push((k, v)));
            assert(entries_view(entries@) =~= entries_view(before).push((k@, v@)));
            i = i + 1;
            assert(entries_view(entries@) =~= self.spec_pairs().take(i as int));
        }
        assert(self.spec_pairs().take(self.entries@.len() as int) =~= self.spec_pairs());
        StrMap { entries }
    }

    /// Inserts every entry of `other`, its values overriding those here.
    pub fn insert_all(&mut self, other: &Self)
        ensures
            final(self).spec_map() == old(self).spec_map().union_prefer_right(other.spec_map()),
    {
        proof {
            use_type_invariant(other);
        }
        let ghost start = self.spec_map();
        let ghost pairs = other.spec_pairs();
        let mut i: usize = 0;
        while i < other.entries.len()
            invariant
                i <= other.entries@.len(),
                pairs == other.spec_pairs(),
                pairs.len() == other.entries@.len(),
                keys_sorted(pair_keys(pairs)),
                self.spec_map() == fold_inserts(start, pairs.take(i as int)),
            decreases other.entries@.len() - i,
        {
            let k = other.entries[i].0.dup();
            let v = other.entries[i].1.dup();
            self.insert(k, v);
            proof {
                assert(pairs.take(i + 1).drop_last() =~= pairs.take(i as int));
                assert(pairs.take(i + 1).last() == pairs[i as int]);
            }
            i = i + 1;
        }
        proof {
            assert(pairs.take(pairs.len() as int) =~= pairs);
            lemma_fold_inserts_sorted(pairs, start);
        }
    }
}

impl<K: StrKey + Dup, V: Mergeable> StrMap<K, V> {
    /// Splits `incoming` against this map: the entries whose keys are new
    /// here, and, in incoming order, the keys whose values differ.
    /// Entries equal on both sides appear in neither.
    pub fn merge_check(&self, incoming: &Self) -> (r: (Self, Vec<(K, V, V)>))
        ensures
            r.0.spec_map() == new_entries(self.spec_map(), incoming.spec_map()),
            r.1@.map_values(|c: (K, V, V)| triple_view(c)) == conflicts_in(
                self.spec_map(),
                incoming.spec_pairs(),
                |a: V::V, b: V::V| V::differs(a, b),
            ),
    {
        proof {
            use_type_invariant(incoming);
        }
        let ghost pairs = incoming.spec_pairs();
        let ghost differs = |a: V::V, b: V::V| V::differs(a, b);
        let mut fresh: Self = StrMap::new();
        let mut conflicts: Vec<(K, V, V)> = Vec::new();
        let mut i: usize = 0;
        proof {
            assert(pairs.take(0) =~= Seq::<(Seq<char>, V::V)>::empty());
            assert(pairs_map(pairs.take(0)) =~= Map::<Seq<char>, V::V>::empty());
            assert(fresh.spec_map() =~= new_entries(self.spec_map(), pairs_map(pairs.take(0))));
            assert(conflicts@.map_values(|c: (K, V, V)| triple_view(c)) =~= Seq::<
                (Seq<char>, V::V, V::V),
            >::empty());
        }
        while i < incoming.entries.len()
            invariant
                i <= incoming.entries@.len(),
                pairs == incoming.spec_pairs(),
                pairs.len() == incoming.entries@.len(),
                keys_sorted(pair_keys(pairs)),
                differs == (|a: V::V, b: V::V| V::differs(a, b)),
                fresh.spec_map() == new_entries(self.spec_map(), pairs_map(pairs.take(i as int))),
                conflicts@.map_values(|c: (K, V, V)| triple_view(c)) == conflicts_in(
                    self.spec_map(),
                    pairs.take(i as int),
                    differs,
                ),
            decreases incoming.entries@.len() - i,
        {
            let k = &incoming.entries[i].0;
            let v = &incoming.entries[i].1;
            let ghost before = pairs.take(i as int);
            let ghost after = pairs.take(i + 1);
            proof {
                assert(pairs[i as int] == (k@, v@));
                lemma_take_sorted(pairs, i + 1);
                assert(after.drop_last() =~= before);
                assert(after =~= before.push(pairs[i as int]));
                lemma_pairs_map_push(before, pairs[i as int]);
            }
            let ghost conf_before = conflicts@;
            match self.get(k.as_key()) {
                None => {
                    fresh.insert(k.dup(), v.dup());
                    proof {
                        assert(fresh.spec_map() =~= new_entries(self.spec_map(), pairs_map(after)));
                    }
                },
                Some(existing) => {
                    if existing.differs_from(v) {
                        let c = (k.dup(), existing.dup(), v.dup());
                        conflicts.push(c);
                        proof {
                            assert(conflicts@ =~= conf_before.push(c));
                            assert(conflicts@.map_values(|c: (K, V, V)| triple_view(c)) =~= conf_before.map_values(
                                |c: (K, V, V)| triple_view(c),
                            ).push(triple_view(c)));
                        }
                    }
                    proof {
                        assert(fresh.spec_map() =~= new_entries(self.spec_map(), pairs_map(after)));
                    }
                },
            }
            i = i + 1;
        }
        proof {
            assert(pairs.take(pairs.len() as int) =~= pairs);
        }
        (fresh, conflicts)
    }
}

} // verus!

//! Variables: `{{name}}` placeholders and their values in one scope.
use vstd::prelude::*;
use vstd::std_specs::iter::IteratorSpec;

use crate::strmap::{conflicts_in, new_entries, triple_view, Dup, StrKey, StrMap};
use crate::text::{push_char, push_str, string_from};

verus! {

/// May `c` appear in a variable name?
pub open spec fn is_name_char(c: char) -> bool {
    ('a' <= c && c <= 'z') || ('A' <= c && c <= 'Z') || ('0' <= c && c <= '9') || c == '_' || c
        == '-'
}

/// May `c` start a variable name?
pub open spec fn is_name_start(c: char) -> bool {
    ('a' <= c && c <= 'z') || ('A' <= c && c <= 'Z') || c == '_'
}

/// A valid variable name: a letter or `_`, then letters, digits, `_` or `-`.
pub open spec fn valid_var_name(s: Seq<char>) -> bool {
    s.len() > 0 && is_name_start(s[0]) && forall|i: int| 0 <= i < s.len() ==> is_name_char(#[trigger] s[i])
}

/// Why a text is not a variable name.
#[derive(Debug, Clone, PartialEq, Eq)]
pub enum VarNameError {
    Empty,
    BadStart(char),
    BadChar(char),
}

/// The message for a name that is not a variable name.
pub open spec fn var_name_error_text(e: VarNameError) -> Seq<char> {
    match e {
        VarNameError::Empty => "variable name must not be empty"@,
        VarNameError::BadStart(c) => "variable name must start with a letter or '_', found '"@ + seq![c] + "'"@,
        VarNameError::BadChar(c) => "variable name may only hold letters, digits, '_' and '-', found '"@ + seq![c]
            + "'"@,
    }
}

impl VarNameError {
    /// The message shown to the user.
    pub fn to_string(&self) -> (r: String)
        ensures
            r@ == var_name_error_text(*self),
    {
        match self {
            VarNameError::Empty => string_from("variable name must not be empty"),
            VarNameError::BadStart(c) => {
                let mut s = string_from("variable name must start with a letter or '_', found '");
                push_char(&mut s, *c);
                push_str(&mut s, "'");
                s
            },
            VarNameError::BadChar(c) => {
                let mut s = string_from("variable name may only hold letters, digits, '_' and '-', found '");
                push_char(&mut s, *c);
                push_str(&mut s, "'");
                s
            },
        }
    }
}

/// A checked variable name.
#[derive(Debug, Clone, PartialEq, Eq, PartialOrd, Ord, Hash)]
pub struct VarName(String);

impl View for VarName {
    type V = Seq<char>;

    closed spec fn view(&self) -> Seq<char> {
        self.0@
    }
}

impl Dup for VarName {
    fn dup(&self) -> (r: Self) {
        VarName(self.0.clone())
    }
}

impl StrKey for VarName {
    fn as_key(&self) -> (r: &str) {
        self.0.as_str()
    }
}

impl VarName {
    /// Accepts exactly the valid names; otherwise says what is wrong.
    pub fn parse(s: &str) -> (r: Result<VarName, VarNameError>)
        ensures
            r is Ok <==> valid_var_name(s@),
            r matches Ok(n) ==> n@ == s@,
            r matches Err(e) ==> (e is Empty <==> s@.len() == 0),
    {
        let n = s.unicode_len();
        if n == 0 {
            return Err(VarNameError::Empty);
        }
        let c0 = s.get_char(0);
        if !(('a' <= c0 && c0 <= 'z') || ('A' <= c0 && c0 <= 'Z') || c0 == '_') {
            return Err(VarNameError::BadStart(c0));
        }
        let mut i: usize = 0;
        while i < n
            invariant
                n == s@.len(),
                i <= n,
                forall|j: int| 0 <= j < i ==> is_name_char(#[trigger] s@[j]),
            decreases n - i,
        {
            let c = s.get_char(i);
            if !(('a' <= c && c <= 'z') || ('A' <= c && c <= 'Z') || ('0' <= c && c <= '9') || c
                == '_' || c == '-') {
                assert(!is_name_char(s@[i as int]));
                return Err(VarNameError::BadChar(c));
            }
            i = i + 1;
        }
        Ok(VarName(string_from(s)))
    }

    pub fn as_str(&self) -> (r: &str)
        ensures
            r@ == self@,
    {
        self.0.as_str()
    }
}

/// The variables of one scope, ordered by name.
#[derive(Debug)]
pub struct VarSet(StrMap<VarName, String>);

impl View for VarSet {
    type V = Map<Seq<char>, Seq<char>>;

    closed spec fn view(&self) -> Map<Seq<char>, Seq<char>> {
        self.0.spec_map()
    }
}

impl Default for VarSet {
    fn default() -> (r: Self)
        ensures
            r@ == Map::<Seq<char>, Seq<char>>::empty(),
            r.pairs() == Seq::<(Seq<char>, Seq<char>)>::empty(),
    {
        VarSet(StrMap::new())
    }
}

/// Do two variable values conflict?
pub open spec fn value_differs(a: Seq<char>, b: Seq<char>) -> bool {
    a != b
}

impl VarSet {
    /// The entries in ascending name order.
    pub closed spec fn pairs(&self) -> Seq<(Seq<char>, Seq<char>)> {
        self.0.spec_pairs()
    }

    /// The entries, in ascending name order.
    pub fn iter(&self) -> (r: std::slice::Iter<'_, (VarName, String)>)
        ensures
            r.remaining().map_values(|p: &(VarName, String)| (p.0@, p.1@)) == self.pairs(),
    {
        self.0.iter()
    }

    /// The entries as a slice, in ascending name order.
    pub fn entries(&self) -> (r: &[(VarName, String)])
        ensures
            r@.map_values(|p: (VarName, String)| (p.0@, p.1@)) == self.pairs(),
            crate::strmap::keys_sorted(crate::strmap::pair_keys(self.pairs())),
            crate::strmap::pairs_map(self.pairs()) == self@,
    {
        let r = self.0.entries();
        assert(r@.map_values(|p: (VarName, String)| (p.0@, p.1@)) =~= crate::strmap::entries_view(r@));
        r
    }

    pub fn insert(&mut self, name: VarName, value: String) -> (r: Option<String>)
        ensures
            final(self)@ == old(self)@.insert(name@, value@),
            r is Some == old(self)@.contains_key(name@),
            r matches Some(v) ==> v@ == old(self)@[name@],
    {
        self.0.insert(name, value)
    }

    pub fn remove(&mut self, name: &str) -> (r: Option<String>)
        ensures
            final(self)@ == old(self)@.remove(name@),
            r is Some == old(self)@.contains_key(name@),
            r matches Some(v) ==> v@ == old(self)@[name@],
    {
        self.0.remove(name)
    }

    pub fn get(&self, name: &str) -> (r: Option<&String>)
        ensures
            r is Some == self@.contains_key(name@),
            r matches Some(v) ==> v@ == self@[name@],
    {
        self.0.get(name)
    }

    pub fn contains_key(&self, name: &str) -> (r: bool)
        ensures
            r == self@.contains_key(name@),
    {
        self.0.contains_key(name)
    }

    pub fn is_empty(&self) -> (r: bool)
        ensures
            r == (self@ =~= Map::<Seq<char>, Seq<char>>::empty()),
            r == (self@.len() == 0),
            r == (self.pairs().len() == 0),
    {
        let n = self.0.len();
        self.0.is_empty()
    }

    pub fn len(&self) -> (r: usize)
        ensures
            r == self@.len(),
            r == self.pairs().len(),
    {
        self.0.len()
    }

    /// An equal copy.
    pub fn dup(&self) -> (r: Self)
        ensures
            r@ == self@,
            r.pairs() == self.pairs(),
    {
        VarSet(self.0.dup_map())
    }

    /// Adds every variable of `other`, replacing same-named ones here.
    pub fn insert_all(&mut self, other: &VarSet)
        ensures
            final(self)@ == old(self)@.union_prefer_right(other@),
    {
        self.0.insert_all(&other.0)
    }

    /// Checks `incoming` against this set: names new here, and, in name
    /// order, the names whose values differ.
    pub fn merge_check(&self, incoming: &VarSet) -> (r: (VarSet, Vec<(VarName, String, String)>))
        ensures
            r.0@ == new_entries(self@, incoming@),
            r.1@.map_values(|c: (VarName, String, String)| triple_view(c)) == conflicts_in(
                self@,
                incoming.pairs(),
                |a: Seq<char>, b: Seq<char>| value_differs(a, b),
            ),
    {
        let (fresh, triples) = self.0.merge_check(&incoming.0);
        proof {
            assert((|a: Seq<char>, b: Seq<char>| <String as crate::strmap::Mergeable>::differs(a, b)) =~= (|a: Seq<char>, b: Seq<char>| value_differs(a, b)));
        }
        (VarSet(fresh), triples)
    }
}

} // verus!

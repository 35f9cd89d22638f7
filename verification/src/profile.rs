//! Profiles: named groups of aliases that can be switched on and off.
use vstd::prelude::*;

use crate::alias::AliasSet;
use crate::subcommand::SubcommandSet;
use crate::text::str_equal;
use crate::vars::VarSet;

verus! {

/// A named group of aliases, subcommand aliases and variables.
#[derive(Debug)]
pub struct Profile {
    pub name: String,
    pub aliases: AliasSet,
    pub subcommands: SubcommandSet,
    pub vars: VarSet,
}

impl Profile {
    /// An empty profile called `name`.
    pub fn new(name: String) -> (r: Self)
        ensures
            r.name@ == name@,
            r.aliases@ == Map::<Seq<char>, crate::alias::AliasSpec>::empty(),
            r.subcommands@ == Map::<Seq<char>, crate::subcommand::SubSpec>::empty(),
            r.vars@ == Map::<Seq<char>, Seq<char>>::empty(),
    {
        Profile {
            name,
            aliases: AliasSet::default(),
            subcommands: SubcommandSet::new(),
            vars: VarSet::default(),
        }
    }
}

/// All defined profiles, in file order.
#[derive(Debug)]
pub struct ProfileConfig {
    pub profiles: Vec<Profile>,
}

impl Default for ProfileConfig {
    fn default() -> (r: Self)
        ensures
            r.profiles@.len() == 0,
    {
        ProfileConfig { profiles: Vec::new() }
    }
}

/// Index of the first profile called `name`, if any.
pub open spec fn first_named(profiles: Seq<Profile>, name: Seq<char>) -> Option<int>
    decreases profiles.len(),
{
    if profiles.len() == 0 {
        None
    } else {
        match first_named(profiles.drop_last(), name) {
            Some(i) => Some(i),
            None => if profiles.last().name@ == name {
                Some(profiles.len() - 1)
            } else {
                None
            },
        }
    }
}

/// `first_named` finds a profile of that name, and only past the names it skips.
pub proof fn lemma_first_named(profiles: Seq<Profile>, name: Seq<char>)
    ensures
        first_named(profiles, name) matches Some(i) ==> 0 <= i < profiles.len()
            && profiles[i].name@ == name && forall|j: int| 0 <= j < i ==> profiles[j].name@ != name,
        first_named(profiles, name) is None ==> forall|j: int|
            0 <= j < profiles.len() ==> profiles[j].name@ != name,
    decreases profiles.len(),
{
    if profiles.len() > 0 {
        lemma_first_named(profiles.drop_last(), name);
        let d = profiles.drop_last();
        assert forall|j: int| 0 <= j < d.len() implies d[j] == profiles[j] by {}
    }
}

impl ProfileConfig {
    /// The profiles, in file order.
    pub fn iter(&self) -> (r: std::slice::Iter<'_, Profile>)
        ensures
            vstd::std_specs::iter::IteratorSpec::remaining(&r).map_values(|p: &Profile| *p)
                == self.profiles@,
    {
        broadcast use vstd::std_specs::slice::axiom_spec_slice_iter;
        let r = self.profiles.as_slice().iter();
        assert(vstd::std_specs::iter::IteratorSpec::remaining(&r).map_values(|p: &Profile| *p) =~= self.profiles@);
        r
    }

    /// The first profile called `name`.
    pub fn get_profile_by_name(&self, name: &str) -> (r: Option<&Profile>)
        ensures
            match first_named(self.profiles@, name@) {
                Some(i) => r matches Some(p) && *p == self.profiles@[i],
                None => r is None,
            },
    {
        let mut i: usize = 0;
        while i < self.profiles.len()
            invariant
                i <= self.profiles@.len(),
                first_named(self.profiles@.take(i as int), name@) is None,
            decreases self.profiles@.len() - i,
        {
            proof {
                assert(self.profiles@.take(i + 1).drop_last() =~= self.profiles@.take(i as int));
            }
            if str_equal(self.profiles[i].name.as_str(), name) {
                proof {
                    lemma_first_named_prefix(self.profiles@, i + 1, name@);
                }
                return Some(&self.profiles[i]);
            }
            i = i + 1;
        }
        proof {
            assert(self.profiles@.take(self.profiles@.len() as int) =~= self.profiles@);
        }
        None
    }
}

/// A profile found in a prefix is the first in the whole list.
pub proof fn lemma_first_named_prefix(ps: Seq<Profile>, n: int, name: Seq<char>)
    requires
        0 < n <= ps.len(),
        first_named(ps.take(n), name) is Some,
    ensures
        first_named(ps, name) == first_named(ps.take(n), name),
    decreases ps.len(),
{
    if n < ps.len() {
        assert(ps.drop_last().take(n) =~= ps.take(n));
        lemma_first_named_prefix(ps.drop_last(), n, name);
    } else {
        assert(ps.take(n) =~= ps);
    }
}

} // verus!

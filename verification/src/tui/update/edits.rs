//! Edits the interface makes to the stores: profiles created, renamed and
//! deleted, and subcommand aliases stored and removed in a scope.
use vstd::prelude::*;

use crate::profile::{first_named, lemma_first_named, Profile};
use crate::subcommand::{has_prefixed, strip_prefixed, SubSpec, TomlSubcommand};
use crate::text::{str_equal, views};
use crate::tui::model::MoveDestination;
use crate::tui::transfer::{profile_index, AliasStores, DestSpec};

verus! {

/// Appends an empty profile called `name`.
pub fn create_profile(st: &mut AliasStores, name: String)
    ensures
        final(st).config == old(st).config,
        final(st).project == old(st).project,
        final(st).profiles.profiles@.len() == old(st).profiles.profiles@.len() + 1,
        final(st).profiles.profiles@.drop_last() == old(st).profiles.profiles@,
        final(st).profiles.profiles@.last().name@ == name@,
        final(st).profiles.profiles@.last().aliases@.len() == 0,
        final(st).profiles.profiles@.last().subcommands@.len() == 0,
        final(st).profiles.profiles@.last().vars@.len() == 0,
{
    let ghost before = st.profiles.profiles@;
    st.profiles.profiles.push(Profile::new(name));
    proof {
        assert(st.profiles.profiles@.drop_last() =~= before);
    }
}

/// The profiles without the first one called `name`.
pub open spec fn without_profile(ps: Seq<Profile>, name: Seq<char>) -> Seq<Profile> {
    match first_named(ps, name) {
        Some(i) => ps.remove(i),
        None => ps,
    }
}

/// Deletes the first profile called `name` and deactivates the name.
pub fn delete_profile(st: &mut AliasStores, active: &mut Vec<String>, name: &str)
    ensures
        final(st).config == old(st).config,
        final(st).project == old(st).project,
        final(st).profiles.profiles@ == without_profile(old(st).profiles.profiles@, name@),
        views(final(active)@) == crate::session::without(views(old(active)@), name@),
{
    proof {
        lemma_first_named(st.profiles.profiles@, name@);
    }
    match profile_index(&st.profiles, name) {
        Some(i) => {
            st.profiles.profiles.remove(i);
        },
        None => {},
    }
    let rest = crate::session::remove_name(active, name);
    *active = rest;
}

/// The names with every `from` replaced by `to`.
pub open spec fn renamed(s: Seq<Seq<char>>, from: Seq<char>, to: Seq<char>) -> Seq<Seq<char>> {
    s.map_values(|x: Seq<char>| if x == from {
        to
    } else {
        x
    })
}

/// Renames the first profile called `from` and every activation of it.
pub fn rename_profile(st: &mut AliasStores, active: &mut Vec<String>, from: &str, to: String)
    ensures
        final(st).config == old(st).config,
        final(st).project == old(st).project,
        match first_named(old(st).profiles.profiles@, from@) {
            Some(i) => final(st).profiles.profiles@ == old(st).profiles.profiles@.update(
                i,
                Profile { name: to, ..old(st).profiles.profiles@[i] },
            ),
            None => final(st).profiles.profiles@ == old(st).profiles.profiles@,
        },
        views(final(active)@) == renamed(views(old(active)@), from@, to@),
{
    proof {
        lemma_first_named(st.profiles.profiles@, from@);
    }
    let mut names: Vec<String> = Vec::new();
    let mut j: usize = 0;
    let ghost src = views(active@);
    while j < active.len()
        invariant
            j <= active@.len(),
            src == views(active@),
            views(names@) == renamed(src.take(j as int), from@, to@),
        decreases active@.len() - j,
    {
        let ghost before = views(names@);
        let x = if str_equal(active[j].as_str(), from) {
            to.clone()
        } else {
            active[j].clone()
        };
        names.push(x);
        proof {
            assert(views(names@) =~= before.push(x@));
            assert(src.take(j + 1) =~= src.take(j as int).push(src[j as int]));
            assert(renamed(src.take(j + 1), from@, to@) =~= renamed(src.take(j as int), from@, to@).push(
                x@,
            ));
        }
        j = j + 1;
    }
    proof {
        assert(src.take(active@.len() as int) =~= src);
    }
    *active = names;
    match profile_index(&st.profiles, from) {
        Some(i) => {
            let ghost before = st.profiles.profiles@;
            let mut p = st.profiles.profiles.remove(i);
            p.name = to;
            st.profiles.profiles.insert(i, p);
            proof {
                assert(st.profiles.profiles@ =~= before.update(i as int, Profile { name: to, ..before[i as int] }));
            }
        },
        None => {},
    }
}

/// The subcommand aliases of a destination scope (a missing project has
/// none; a missing profile has no scope).
pub open spec fn subs_at(st: AliasStores, dest: DestSpec) -> Option<Map<Seq<char>, SubSpec>> {
    match dest {
        DestSpec::Global => Some(st.config.subcommands@),
        DestSpec::Project => match st.project {
            Some(p) => Some(p.subcommands@),
            None => Some(Map::empty()),
        },
        DestSpec::Profile(n) => match first_named(st.profiles.profiles@, n) {
            Some(i) => Some(st.profiles.profiles@[i].subcommands@),
            None => None,
        },
    }
}

/// `b` is `a` with the subcommand aliases of `dest` replaced by `m`
/// (a missing project is created for it; a missing profile stays absent
/// and nothing changes).
pub open spec fn subs_replaced(a: AliasStores, b: AliasStores, dest: DestSpec, m: Map<Seq<char>, SubSpec>) -> bool {
    match dest {
        DestSpec::Global => {
            &&& b.config.subcommands@ == m
            &&& b.config.aliases@ == a.config.aliases@
            &&& b.config.shell == a.config.shell
            &&& b.profiles == a.profiles
            &&& b.project == a.project
        },
        DestSpec::Project => {
            &&& b.config == a.config
            &&& b.profiles == a.profiles
            &&& b.project matches Some(q) && q.subcommands@ == m && match a.project {
                Some(p) => q.aliases@ == p.aliases@ && q.vars@ == p.vars@,
                None => q.aliases@.len() == 0 && q.vars@.len() == 0,
            }
        },
        DestSpec::Profile(n) => match first_named(a.profiles.profiles@, n) {
            Some(i) => {
                &&& b.config == a.config
                &&& b.project == a.project
                &&& b.profiles.profiles@.len() == a.profiles.profiles@.len()
                &&& forall|j: int|
                    0 <= j < a.profiles.profiles@.len() && j != i ==> #[trigger] b.profiles.profiles@[j]
                        == a.profiles.profiles@[j]
                &&& b.profiles.profiles@[i].name == a.profiles.profiles@[i].name
                &&& b.profiles.profiles@[i].aliases@ == a.profiles.profiles@[i].aliases@
                &&& b.profiles.profiles@[i].vars@ == a.profiles.profiles@[i].vars@
                &&& b.profiles.profiles@[i].subcommands@ == m
            },
            None => b == a,
        },
    }
}

/// Stores (`Some`) or removes (`None`) the subcommand alias `key` in the
/// destination scope.
pub fn edit_subcommand_at(st: &mut AliasStores, dest: &MoveDestination, key: &str, put: Option<Vec<String>>)
    ensures
        subs_at(*old(st), dest@) matches Some(m) ==> subs_replaced(
            *old(st),
            *final(st),
            dest@,
            match put {
                Some(longs) => m.insert(key@, TomlSubcommand::Expansion(longs)@),
                None => m.remove(key@),
            },
        ),
        subs_at(*old(st), dest@) is None ==> *final(st) == *old(st),
{
    match dest {
        MoveDestination::Global => match put {
            Some(longs) => st.config.add_subcommand(crate::text::string_from(key), longs),
            None => {
                let _ = st.config.remove_subcommand(key);
            },
        },
        MoveDestination::Project => {
            let ghost had = st.project;
            if st.project.is_none() {
                st.project = Some(crate::project::ProjectAliases::default());
            }
            match &mut st.project {
                Some(p) => match put {
                    Some(longs) => p.add_subcommand(crate::text::string_from(key), longs),
                    None => {
                        let _ = p.remove_subcommand(key);
                    },
                },
                None => {},
            }
        },
        MoveDestination::Profile(n) => {
            proof {
                lemma_first_named(st.profiles.profiles@, n@);
            }
            match profile_index(&st.profiles, n.as_str()) {
                Some(i) => {
                    let ghost before = st.profiles.profiles@;
                    let mut p = st.profiles.profiles.remove(i);
                    match put {
                        Some(longs) => {
                            p.subcommands.insert(crate::text::string_from(key), TomlSubcommand::Expansion(longs));
                        },
                        None => {
                            p.subcommands.remove(key);
                        },
                    }
                    st.profiles.profiles.insert(i, p);
                    proof {
                        assert forall|j: int| 0 <= j < before.len() && j != i implies #[trigger] st.profiles.profiles@[j]
                            == before[j] by {}
                    }
                },
                None => {},
            }
        },
    }
}

/// Replaces the subcommand alias `old_key` of the destination scope by
/// `key` expanding to `longs` (`old_key` may equal `key`).
pub fn replace_subcommand_at(st: &mut AliasStores, dest: &MoveDestination, old_key: &str, key: String, longs: Vec<String>)
    ensures
        subs_at(*old(st), dest@) matches Some(m) ==> subs_replaced(
            *old(st),
            *final(st),
            dest@,
            m.remove(old_key@).insert(key@, TomlSubcommand::Expansion(longs)@),
        ),
        subs_at(*old(st), dest@) is None ==> *final(st) == *old(st),
{
    match dest {
        MoveDestination::Global => {
            let _ = st.config.remove_subcommand(old_key);
            st.config.add_subcommand(key, longs);
        },
        MoveDestination::Project => {
            if st.project.is_none() {
                st.project = Some(crate::project::ProjectAliases::default());
            }
            match &mut st.project {
                Some(p) => {
                    let _ = p.remove_subcommand(old_key);
                    p.add_subcommand(key, longs);
                },
                None => {},
            }
        },
        MoveDestination::Profile(n) => {
            proof {
                lemma_first_named(st.profiles.profiles@, n@);
            }
            match profile_index(&st.profiles, n.as_str()) {
                Some(i) => {
                    let ghost before = st.profiles.profiles@;
                    let mut p = st.profiles.profiles.remove(i);
                    p.subcommands.remove(old_key);
                    p.subcommands.insert(key, TomlSubcommand::Expansion(longs));
                    st.profiles.profiles.insert(i, p);
                    proof {
                        assert forall|j: int| 0 <= j < before.len() && j != i implies #[trigger] st.profiles.profiles@[j]
                            == before[j] by {}
                    }
                },
                None => {},
            }
        },
    }
}

/// Removes the subcommand aliases of the destination scope whose keys
/// start with `prefix`; says whether there were any (nothing changes when
/// there were none).
pub fn remove_prefixed_at(st: &mut AliasStores, dest: &MoveDestination, prefix: &str) -> (r: bool)
    ensures
        match subs_at(*old(st), dest@) {
            Some(m) => if has_prefixed(m, prefix@) {
                r && subs_replaced(*old(st), *final(st), dest@, strip_prefixed(m, prefix@))
            } else {
                !r && *final(st) == *old(st)
            },
            None => !r && *final(st) == *old(st),
        },
{
    match dest {
        MoveDestination::Global => st.config.subcommands.remove_prefixed(prefix),
        MoveDestination::Project => match &mut st.project {
            Some(p) => p.subcommands.remove_prefixed(prefix),
            None => {
                proof {
                    assert(!has_prefixed(Map::<Seq<char>, SubSpec>::empty(), prefix@));
                }
                false
            },
        },
        MoveDestination::Profile(n) => {
            proof {
                lemma_first_named(st.profiles.profiles@, n@);
            }
            match profile_index(&st.profiles, n.as_str()) {
                Some(i) => {
                    if !st.profiles.profiles[i].subcommands.has_prefixed_key(prefix) {
                        return false;
                    }
                    let ghost before = st.profiles.profiles@;
                    let mut p = st.profiles.profiles.remove(i);
                    let any = p.subcommands.remove_prefixed(prefix);
                    st.profiles.profiles.insert(i, p);
                    proof {
                        assert forall|j: int| 0 <= j < before.len() && j != i implies #[trigger] st.profiles.profiles@[j]
                            == before[j] by {}
                    }
                    any
                },
                None => false,
            }
        },
    }
}

} // verus!

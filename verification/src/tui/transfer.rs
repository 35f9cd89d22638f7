//! Moving and copying aliases between scopes.
use vstd::prelude::*;

use crate::alias::{AliasName, AliasSet, AliasSpec};
use crate::alias_id::{AliasId, IdSpec};
use crate::config::Config;
use crate::profile::{first_named, lemma_first_named_prefix, Profile, ProfileConfig};
use crate::project::{added_alias, ProjectAliases};
use crate::strmap::Dup;
use crate::text::{str_equal, string_from};
use crate::tui::model::MoveDestination;

verus! {

/// Where a transfer goes.
pub enum DestSpec {
    Global,
    Project,
    Profile(Seq<char>),
}

impl View for MoveDestination {
    type V = DestSpec;

    open spec fn view(&self) -> DestSpec {
        match self {
            MoveDestination::Global => DestSpec::Global,
            MoveDestination::Project => DestSpec::Project,
            MoveDestination::Profile(n) => DestSpec::Profile(n@),
        }
    }
}

/// Is the alias already in the destination scope?
pub open spec fn same_source(id: IdSpec, dest: DestSpec) -> bool {
    match (id, dest) {
        (IdSpec::Global(_), DestSpec::Global) => true,
        (IdSpec::Project(_), DestSpec::Project) => true,
        (IdSpec::Profile(p, _), DestSpec::Profile(d)) => p == d,
        _ => false,
    }
}

/// Is the alias already in the destination scope?
pub fn is_same_source(id: &AliasId, dest: &MoveDestination) -> (r: bool)
    ensures
        r == same_source(id@, dest@),
{
    match (id, dest) {
        (AliasId::Global { .. }, MoveDestination::Global) => true,
        (AliasId::Project { .. }, MoveDestination::Project) => true,
        (AliasId::Profile { profile_name, .. }, MoveDestination::Profile(dest_name)) => str_equal(
            profile_name.as_str(),
            dest_name.as_str(),
        ),
        _ => false,
    }
}

/// The alias stores a transfer reads and writes.
#[derive(Debug)]
pub struct AliasStores {
    pub config: Config,
    pub profiles: ProfileConfig,
    pub project: Option<ProjectAliases>,
}

/// What a transfer sees of the stores: the global aliases, each profile's
/// name and aliases, and the project's aliases.
#[verifier::ext_equal]
pub struct StoresView {
    pub global: Map<Seq<char>, AliasSpec>,
    pub profiles: Seq<(Seq<char>, Map<Seq<char>, AliasSpec>)>,
    pub project: Option<Map<Seq<char>, AliasSpec>>,
}

/// Each profile's name and aliases.
pub open spec fn profile_views(ps: Seq<Profile>) -> Seq<(Seq<char>, Map<Seq<char>, AliasSpec>)> {
    ps.map_values(|p: Profile| (p.name@, p.aliases@))
}

impl View for AliasStores {
    type V = StoresView;

    open spec fn view(&self) -> StoresView {
        StoresView {
            global: self.config.aliases@,
            profiles: profile_views(self.profiles.profiles@),
            project: match self.project {
                Some(p) => Some(p.aliases@),
                None => None,
            },
        }
    }
}

/// Index of the first profile called `name`, if any.
pub open spec fn first_view(ps: Seq<(Seq<char>, Map<Seq<char>, AliasSpec>)>, name: Seq<char>) -> Option<int>
    decreases ps.len(),
{
    if ps.len() == 0 {
        None
    } else {
        match first_view(ps.drop_last(), name) {
            Some(i) => Some(i),
            None => if ps.last().0 == name {
                Some(ps.len() - 1)
            } else {
                None
            },
        }
    }
}

proof fn lemma_first_view(ps: Seq<Profile>, name: Seq<char>)
    ensures
        first_view(profile_views(ps), name) == first_named(ps, name),
    decreases ps.len(),
{
    if ps.len() > 0 {
        lemma_first_view(ps.drop_last(), name);
        assert(profile_views(ps).drop_last() =~= profile_views(ps.drop_last()));
    }
}

proof fn lemma_first_view_bounds(ps: Seq<(Seq<char>, Map<Seq<char>, AliasSpec>)>, name: Seq<char>)
    ensures
        first_view(ps, name) matches Some(i) ==> 0 <= i < ps.len() && ps[i].0 == name,
    decreases ps.len(),
{
    if ps.len() > 0 {
        lemma_first_view_bounds(ps.drop_last(), name);
    }
}

/// Changing aliases of profiles keeps which profile a name finds.
proof fn lemma_first_view_names(
    a: Seq<(Seq<char>, Map<Seq<char>, AliasSpec>)>,
    b: Seq<(Seq<char>, Map<Seq<char>, AliasSpec>)>,
    name: Seq<char>,
)
    requires
        a.len() == b.len(),
        forall|i: int| 0 <= i < a.len() ==> (#[trigger] a[i]).0 == b[i].0,
    ensures
        first_view(a, name) == first_view(b, name),
    decreases a.len(),
{
    if a.len() > 0 {
        assert forall|i: int| 0 <= i < a.drop_last().len() implies (#[trigger] a.drop_last()[i]).0 == b.drop_last()[i].0 by {
            assert(a[i].0 == b[i].0);
        }
        lemma_first_view_names(a.drop_last(), b.drop_last(), name);
        assert(a[a.len() - 1].0 == b[b.len() - 1].0);
    }
}

/// The alias an id refers to, if it exists.
pub open spec fn source_alias(v: StoresView, id: IdSpec) -> Option<AliasSpec> {
    match id {
        IdSpec::Global(n) => if v.global.contains_key(n) {
            Some(v.global[n])
        } else {
            None
        },
        IdSpec::Profile(p, n) => match first_view(v.profiles, p) {
            Some(k) => if v.profiles[k].1.contains_key(n) {
                Some(v.profiles[k].1[n])
            } else {
                None
            },
            None => None,
        },
        IdSpec::Project(n) => match v.project {
            Some(m) => if m.contains_key(n) {
                Some(m[n])
            } else {
                None
            },
            None => None,
        },
        IdSpec::Subcommand(_, _) => None,
    }
}

/// The name of an id.
pub open spec fn id_name(id: IdSpec) -> Seq<char> {
    match id {
        IdSpec::Global(n) => n,
        IdSpec::Profile(_, n) => n,
        IdSpec::Project(n) => n,
        IdSpec::Subcommand(_, k) => k,
    }
}

/// The stores with the alias an id refers to removed.
pub open spec fn removed_from(v: StoresView, id: IdSpec) -> StoresView {
    match id {
        IdSpec::Global(n) => StoresView { global: v.global.remove(n), ..v },
        IdSpec::Profile(p, n) => match first_view(v.profiles, p) {
            Some(k) => StoresView { profiles: v.profiles.update(k, (v.profiles[k].0, v.profiles[k].1.remove(n))), ..v },
            None => v,
        },
        IdSpec::Project(n) => match v.project {
            Some(m) => StoresView { project: Some(m.remove(n)), ..v },
            None => v,
        },
        IdSpec::Subcommand(_, _) => v,
    }
}

/// The stores with `a` stored as `name` at the destination; a missing
/// project gets created, a missing profile gets nothing.
pub open spec fn added_to(v: StoresView, name: Seq<char>, a: AliasSpec, dest: DestSpec) -> StoresView {
    match dest {
        DestSpec::Global => StoresView { global: v.global.insert(name, a), ..v },
        DestSpec::Project => StoresView {
            project: Some(
                match v.project {
                    Some(m) => m,
                    None => Map::empty(),
                }.insert(name, a),
            ),
            ..v
        },
        DestSpec::Profile(p) => match first_view(v.profiles, p) {
            Some(k) => StoresView { profiles: v.profiles.update(k, (v.profiles[k].0, v.profiles[k].1.insert(name, a))), ..v },
            None => v,
        },
    }
}

/// A transfer of one alias: nothing when it does not exist; else its
/// command and raw flag are stored at the destination, after it was
/// removed from its source when moving.
pub open spec fn transferred(v: StoresView, id: IdSpec, dest: DestSpec, delete_source: bool) -> StoresView {
    match source_alias(v, id) {
        None => v,
        Some(a) => added_to(
            if delete_source {
                removed_from(v, id)
            } else {
                v
            },
            id_name(id),
            added_alias(a.command, a.raw),
            dest,
        ),
    }
}

/// What a transfer leaves alone: global subcommand aliases and shell
/// settings, each profile's subcommand aliases and variables, and a
/// project's subcommand aliases and variables.
pub open spec fn rest_kept(a: &AliasStores, b: &AliasStores) -> bool {
    &&& b.config.subcommands@ == a.config.subcommands@
    &&& b.config.shell == a.config.shell
    &&& b.profiles.profiles@.len() == a.profiles.profiles@.len()
    &&& forall|i: int|
        0 <= i < a.profiles.profiles@.len() ==> (#[trigger] b.profiles.profiles@[i]).subcommands@
            == a.profiles.profiles@[i].subcommands@ && b.profiles.profiles@[i].vars@
            == a.profiles.profiles@[i].vars@
    &&& match (a.project, b.project) {
        (Some(p), Some(q)) => q.subcommands@ == p.subcommands@ && q.vars@ == p.vars@,
        (None, Some(q)) => q.subcommands@ == Map::<Seq<char>, crate::subcommand::SubSpec>::empty() && q.vars@
            == Map::<Seq<char>, Seq<char>>::empty(),
        (None, None) => true,
        (Some(_), None) => false,
    }
}

/// The index of the first profile called `name`.
pub(crate) fn profile_index(pc: &ProfileConfig, name: &str) -> (r: Option<usize>)
    ensures
        match r {
            Some(i) => first_named(pc.profiles@, name@) == Some(i as int),
            None => first_named(pc.profiles@, name@) is None,
        },
{
    let mut i: usize = 0;
    while i < pc.profiles.len()
        invariant
            i <= pc.profiles@.len(),
            first_named(pc.profiles@.take(i as int), name@) is None,
        decreases pc.profiles@.len() - i,
    {
        proof {
            assert(pc.profiles@.take(i + 1).drop_last() =~= pc.profiles@.take(i as int));
        }
        if str_equal(pc.profiles[i].name.as_str(), name) {
            proof {
                lemma_first_named_prefix(pc.profiles@, i + 1, name@);
            }
            return Some(i);
        }
        i = i + 1;
    }
    proof {
        assert(pc.profiles@.take(pc.profiles@.len() as int) =~= pc.profiles@);
    }
    None
}

/// Removes or stores an alias in the `i`-th profile.
pub(crate) fn edit_profile_aliases(pc: &mut ProfileConfig, i: usize, name: &str, put: Option<&crate::alias::TomlAlias>)
    requires
        i < old(pc).profiles@.len(),
    ensures
        final(pc).profiles@.len() == old(pc).profiles@.len(),
        profile_views(final(pc).profiles@) == profile_views(old(pc).profiles@).update(
            i as int,
            (
                old(pc).profiles@[i as int].name@,
                match put {
                    None => old(pc).profiles@[i as int].aliases@.remove(name@),
                    Some(a) => old(pc).profiles@[i as int].aliases@.insert(name@, a@),
                },
            ),
        ),
        forall|j: int|
            0 <= j < old(pc).profiles@.len() ==> (#[trigger] final(pc).profiles@[j]).subcommands@
                == old(pc).profiles@[j].subcommands@ && final(pc).profiles@[j].vars@ == old(pc).profiles@[j].vars@,
{
    let ghost before = pc.profiles@;
    let mut p = pc.profiles.remove(i);
    match put {
        None => {
            p.aliases.remove(&AliasName::new(name));
        },
        Some(a) => {
            p.aliases.insert(AliasName::new(name), a.dup());
        },
    }
    pc.profiles.insert(i, p);
    proof {
        assert forall|j: int| 0 <= j < before.len() && j != i implies #[trigger] pc.profiles@[j] == before[j] by {}
        assert(profile_views(pc.profiles@) =~= profile_views(before).update(
            i as int,
            (
                before[i as int].name@,
                match put {
                    None => before[i as int].aliases@.remove(name@),
                    Some(a) => before[i as int].aliases@.insert(name@, a@),
                },
            ),
        ));
    }
}

/// The alias an id refers to.
pub(crate) fn read_source<'a>(st: &'a AliasStores, id: &AliasId) -> (r: Option<&'a crate::alias::TomlAlias>)
    ensures
        match source_alias(st@, id@) {
            None => r is None,
            Some(a) => r matches Some(t) && t@ == a,
        },
{
    match id {
        AliasId::Global { alias_name } => st.config.aliases.get_str(alias_name.as_str()),
        AliasId::Profile { profile_name, alias_name } => {
            proof {
                lemma_first_view(st.profiles.profiles@, profile_name@);
                crate::profile::lemma_first_named(st.profiles.profiles@, profile_name@);
            }
            match st.profiles.get_profile_by_name(profile_name.as_str()) {
                Some(p) => p.aliases.get_str(alias_name.as_str()),
                None => None,
            }
        },
        AliasId::Project { alias_name } => match &st.project {
            Some(p) => p.aliases.get_str(alias_name.as_str()),
            None => None,
        },
        AliasId::Subcommand { .. } => None,
    }
}

pub(crate) fn remove_source(st: &mut AliasStores, id: &AliasId)
    ensures
        final(st)@ == removed_from(old(st)@, id@),
        rest_kept(&*old(st), &*final(st)),
{
    let ghost before = st@;
    match id {
        AliasId::Global { alias_name } => {
            let _ = st.config.remove_alias(alias_name.as_str());
            assert(st@ =~= removed_from(before, id@));
        },
        AliasId::Profile { profile_name, alias_name } => {
            proof {
                lemma_first_view(st.profiles.profiles@, profile_name@);
                crate::profile::lemma_first_named(st.profiles.profiles@, profile_name@);
            }
            match profile_index(&st.profiles, profile_name.as_str()) {
                Some(i) => {
                    let ghost ps = st.profiles.profiles@;
                    assert(before.profiles == profile_views(ps));
                    assert(first_named(ps, profile_name@) == Some(i as int));
                    assert(first_view(before.profiles, profile_name@) == Some(i as int));
                    assert(before.profiles[i as int] == (ps[i as int].name@, ps[i as int].aliases@));
                    edit_profile_aliases(&mut st.profiles, i, alias_name.as_str(), None);
                    assert(st@.profiles =~= removed_from(before, id@).profiles);
                },
                None => {},
            }
            assert(st@ =~= removed_from(before, id@));
        },
        AliasId::Project { alias_name } => {
            match &mut st.project {
                Some(p) => {
                    let _ = p.remove_alias(alias_name.as_str());
                },
                None => {},
            }
            assert(st@ =~= removed_from(before, id@));
        },
        AliasId::Subcommand { .. } => {},
    }
}

pub(crate) fn add_destination(st: &mut AliasStores, name: &str, alias: &crate::alias::TomlAlias, dest: &MoveDestination)
    ensures
        final(st)@ == added_to(old(st)@, name@, alias@, dest@),
        rest_kept(&*old(st), &*final(st)),
{
    let ghost before = st@;
    match dest {
        MoveDestination::Global => {
            st.config.aliases.insert(AliasName::new(name), alias.dup());
            assert(st@ =~= added_to(before, name@, alias@, dest@));
        },
        MoveDestination::Project => {
            match &mut st.project {
                Some(p) => {
                    p.aliases.insert(AliasName::new(name), alias.dup());
                },
                None => {
                    let mut p = ProjectAliases::default();
                    p.aliases.insert(AliasName::new(name), alias.dup());
                    st.project = Some(p);
                },
            }
            assert(st@ =~= added_to(before, name@, alias@, dest@));
        },
        MoveDestination::Profile(profile_name) => {
            proof {
                lemma_first_view(st.profiles.profiles@, profile_name@);
                crate::profile::lemma_first_named(st.profiles.profiles@, profile_name@);
            }
            match profile_index(&st.profiles, profile_name.as_str()) {
                Some(i) => {
                    let ghost ps = st.profiles.profiles@;
                    assert(before.profiles == profile_views(ps));
                    assert(first_named(ps, profile_name@) == Some(i as int));
                    assert(first_view(before.profiles, profile_name@) == Some(i as int));
                    assert(before.profiles[i as int] == (ps[i as int].name@, ps[i as int].aliases@));
                    edit_profile_aliases(&mut st.profiles, i, name, Some(alias));
                    assert(st@.profiles =~= added_to(before, name@, alias@, dest@).profiles);
                },
                None => {},
            }
            assert(st@ =~= added_to(before, name@, alias@, dest@));
        },
    }
}

/// Whether an alias definition is raw.
fn raw_of(a: &crate::alias::TomlAlias) -> (r: bool)
    ensures
        r == a@.raw,
{
    match a {
        crate::alias::TomlAlias::Command(_) => false,
        crate::alias::TomlAlias::Detailed(d) => d.raw,
    }
}

/// Moves (`delete_source`) or copies one alias to a destination scope,
/// keeping its command and raw flag.
pub fn transfer_single_alias(st: &mut AliasStores, alias_id: &AliasId, dest: &MoveDestination, delete_source: bool)
    ensures
        final(st)@ == transferred(old(st)@, alias_id@, dest@, delete_source),
        rest_kept(&*old(st), &*final(st)),
{
    let found = match read_source(st, alias_id) {
        None => {
            return;
        },
        Some(a) => crate::project::make_alias(string_from(a.command()), raw_of(a)),
    };
    let name = string_from(alias_id.name());
    if delete_source {
        remove_source(st, alias_id);
    }
    add_destination(st, name.as_str(), &found, dest);
}

/// Does an alias of the id's name already exist at the destination?
pub fn alias_exists_at_dest(st: &AliasStores, id: &AliasId, dest: &MoveDestination) -> (r: bool)
    ensures
        r == match dest@ {
            DestSpec::Global => st@.global.contains_key(id_name(id@)),
            DestSpec::Project => st@.project matches Some(m) && m.contains_key(id_name(id@)),
            DestSpec::Profile(p) => first_view(st@.profiles, p) matches Some(k) && st@.profiles[k].1.contains_key(
                id_name(id@),
            ),
        },
{
    let name = id.name();
    match dest {
        MoveDestination::Global => st.config.aliases.get_str(name).is_some(),
        MoveDestination::Project => match &st.project {
            Some(p) => p.aliases.get_str(name).is_some(),
            None => false,
        },
        MoveDestination::Profile(pn) => {
            proof {
                lemma_first_view(st.profiles.profiles@, pn@);
                crate::profile::lemma_first_named(st.profiles.profiles@, pn@);
            }
            match st.profiles.get_profile_by_name(pn.as_str()) {
                Some(p) => p.aliases.get_str(name).is_some(),
                None => false,
            }
        },
    }
}

/// The alias stored under `name` at a destination, if any.
pub open spec fn alias_at(v: StoresView, name: Seq<char>, dest: DestSpec) -> Option<AliasSpec> {
    match dest {
        DestSpec::Global => if v.global.contains_key(name) {
            Some(v.global[name])
        } else {
            None
        },
        DestSpec::Project => match v.project {
            Some(m) => if m.contains_key(name) {
                Some(m[name])
            } else {
                None
            },
            None => None,
        },
        DestSpec::Profile(p) => match first_view(v.profiles, p) {
            Some(k) => if v.profiles[k].1.contains_key(name) {
                Some(v.profiles[k].1[name])
            } else {
                None
            },
            None => None,
        },
    }
}

/// Moving an alias to another existing scope takes it out of its source
/// and stores its command and raw flag at the destination; copying stores
/// the same and leaves the source as it was.
pub proof fn law_transfer_relocates(v: StoresView, id: IdSpec, dest: DestSpec, a: AliasSpec)
    requires
        source_alias(v, id) == Some(a),
        !same_source(id, dest),
        dest matches DestSpec::Profile(p) ==> first_view(v.profiles, p) is Some,
    ensures
        source_alias(transferred(v, id, dest, true), id) is None,
        alias_at(transferred(v, id, dest, true), id_name(id), dest) == Some(added_alias(a.command, a.raw)),
        source_alias(transferred(v, id, dest, false), id) == Some(a),
        alias_at(transferred(v, id, dest, false), id_name(id), dest) == Some(added_alias(a.command, a.raw)),
{
    let b = added_alias(a.command, a.raw);
    let n = id_name(id);
    let moved = transferred(v, id, dest, true);
    let copied = transferred(v, id, dest, false);
    let r = removed_from(v, id);
    lemma_first_view_bounds(v.profiles, match id {
        IdSpec::Profile(p, _) => p,
        _ => Seq::empty(),
    });
    assert(r.profiles.len() == v.profiles.len());
    assert forall|i: int| 0 <= i < v.profiles.len() implies (#[trigger] r.profiles[i]).0 == v.profiles[i].0 by {}
    lemma_first_view_names(v.profiles, r.profiles, match id {
        IdSpec::Profile(p, _) => p,
        _ => Seq::empty(),
    });
    match dest {
        DestSpec::Profile(q) => {
            lemma_first_view_names(v.profiles, r.profiles, q);
            lemma_first_view_bounds(v.profiles, q);
            assert(moved.profiles.len() == r.profiles.len());
            assert forall|i: int| 0 <= i < r.profiles.len() implies (#[trigger] moved.profiles[i]).0 == r.profiles[i].0 by {}
            lemma_first_view_names(r.profiles, moved.profiles, q);
            match id {
                IdSpec::Profile(p, _) => {
                    lemma_first_view_names(r.profiles, moved.profiles, p);
                    lemma_first_view_bounds(v.profiles, p);
                },
                _ => {},
            }
            assert(copied.profiles.len() == v.profiles.len());
            assert forall|i: int| 0 <= i < v.profiles.len() implies (#[trigger] copied.profiles[i]).0 == v.profiles[i].0 by {}
            lemma_first_view_names(v.profiles, copied.profiles, q);
            match id {
                IdSpec::Profile(p, _) => {
                    lemma_first_view_names(v.profiles, copied.profiles, p);
                },
                _ => {},
            }
        },
        _ => {},
    }
}

/// Is an alias called `name` stored at the destination?
pub fn alias_named_at(st: &AliasStores, name: &str, dest: &MoveDestination) -> (r: bool)
    ensures
        r == alias_at(st@, name@, dest@) is Some,
{
    match dest {
        MoveDestination::Global => st.config.aliases.get_str(name).is_some(),
        MoveDestination::Project => match &st.project {
            Some(p) => p.aliases.get_str(name).is_some(),
            None => false,
        },
        MoveDestination::Profile(pn) => {
            proof {
                lemma_first_view(st.profiles.profiles@, pn@);
                crate::profile::lemma_first_named(st.profiles.profiles@, pn@);
            }
            match st.profiles.get_profile_by_name(pn.as_str()) {
                Some(p) => p.aliases.get_str(name).is_some(),
                None => false,
            }
        },
    }
}

/// Is a profile called `name` among the stores' profiles?
pub open spec fn has_profile(st: AliasStores, name: Seq<char>) -> bool {
    first_named(st.profiles.profiles@, name) is Some
}

} // verus!

//! The rows of the alias tree: an active zone joined by connectors
//! (global, active profiles in activation order, project) and an inactive
//! zone of the remaining profiles.
use vstd::prelude::*;

use crate::alias::{AliasSet, AliasSpec};
use crate::alias_id::{AliasId, IdSpec};
use crate::profile::{first_named, Profile, ProfileConfig};
use crate::project::ProjectAliases;
use crate::text::{contains_str, push_str, string_from, views};
use crate::tui::model::{NodeKind, NodeSpec, TreeNode, TREE_BRANCH, TREE_LAST, TREE_SPACE, TREE_TRUNK};

verus! {

/// How far the project file is trusted, as the tree shows it.
#[derive(Debug, Clone, Copy, PartialEq, Eq, Structural)]
pub enum ProjectTrustState {
    Trusted,
    Unknown,
    Untrusted,
    Tampered,
}

/// The views of a row list.
pub open spec fn nodes_view(v: Seq<TreeNode>) -> Seq<NodeSpec> {
    v.map_values(|n: TreeNode| n@)
}

/// A header row.
pub open spec fn header_node(
    kind: NodeKind,
    is_active: bool,
    label: Seq<char>,
    prefix: Seq<char>,
    content_prefix: Seq<char>,
    trust: Option<ProjectTrustState>,
) -> NodeSpec {
    NodeSpec {
        kind,
        alias_id: None,
        alias_command: None,
        is_active,
        label,
        prefix,
        content_prefix,
        project_trust: trust,
    }
}

/// An alias row.
pub open spec fn alias_node(id: IdSpec, command: Seq<char>, label: Seq<char>, content_prefix: Seq<char>) -> NodeSpec {
    NodeSpec {
        kind: NodeKind::AliasItem,
        alias_id: Some(id),
        alias_command: Some(command),
        is_active: false,
        label,
        prefix: Seq::empty(),
        content_prefix,
        project_trust: None,
    }
}

/// The active profile names that exist, in activation order.
pub open spec fn active_names(profiles: Seq<Profile>, active: Seq<Seq<char>>) -> Seq<Seq<char>>
    decreases active.len(),
{
    if active.len() == 0 {
        Seq::empty()
    } else {
        active_names(profiles, active.drop_last()) + (if first_named(profiles, active.last()) is Some {
            seq![active.last()]
        } else {
            Seq::empty()
        })
    }
}

/// The names of the profiles not active, in file order.
pub open spec fn inactive_names(profiles: Seq<Profile>, active: Seq<Seq<char>>) -> Seq<Seq<char>>
    decreases profiles.len(),
{
    if profiles.len() == 0 {
        Seq::empty()
    } else {
        let n = profiles.last().name@;
        inactive_names(profiles.drop_last(), active) + (if active.contains(n) {
            Seq::empty()
        } else {
            seq![n]
        })
    }
}

/// Rows for global aliases; the one closing the active zone (of `children`
/// rows) gets no trunk below it.
pub open spec fn global_alias_nodes(pairs: Seq<(Seq<char>, AliasSpec)>, children: int) -> Seq<NodeSpec>
    decreases pairs.len(),
{
    if pairs.len() == 0 {
        Seq::empty()
    } else {
        let j = pairs.len() - 1;
        let p = pairs.last();
        let cp = if j == children - 1 {
            TREE_SPACE@
        } else {
            TREE_TRUNK@
        };
        global_alias_nodes(pairs.drop_last(), children) + seq![
            alias_node(IdSpec::Global(p.0), p.1.command, p.0, cp),
        ]
    }
}

/// Rows for a profile's aliases.
pub open spec fn profile_alias_nodes(
    profile: Seq<char>,
    pairs: Seq<(Seq<char>, AliasSpec)>,
    content_prefix: Seq<char>,
) -> Seq<NodeSpec> {
    pairs.map_values(
        |p: (Seq<char>, AliasSpec)| alias_node(IdSpec::Profile(profile, p.0), p.1.command, p.0, content_prefix),
    )
}

/// The aliases of the first profile called `name` (none if there is none).
pub open spec fn profile_pairs(profiles: Seq<Profile>, name: Seq<char>) -> Seq<(Seq<char>, AliasSpec)> {
    match first_named(profiles, name) {
        Some(k) => profiles[k].aliases.pairs(),
        None => Seq::empty(),
    }
}

/// Rows for active profiles: a header with a connector (the last one of
/// the zone closes it) and its aliases.
pub open spec fn active_blocks(profiles: Seq<Profile>, names: Seq<Seq<char>>, total: int, has_project: bool) -> Seq<
    NodeSpec,
>
    decreases names.len(),
{
    if names.len() == 0 {
        Seq::empty()
    } else {
        let i = names.len() - 1;
        let name = names.last();
        let is_last = i == total - 1 && !has_project;
        let connector = if is_last {
            TREE_LAST@
        } else {
            TREE_BRANCH@
        };
        let cp = (if is_last {
            TREE_SPACE@
        } else {
            TREE_TRUNK@
        }) + "  "@;
        active_blocks(profiles, names.drop_last(), total, has_project) + seq![
            header_node(NodeKind::ProfileHeader, true, name, connector, cp, None),
        ] + profile_alias_nodes(name, profile_pairs(profiles, name), cp)
    }
}

/// The label of the project header, with a hint when it is not trusted.
pub open spec fn project_label(trust: Option<ProjectTrustState>) -> Seq<char> {
    match trust {
        Some(ProjectTrustState::Unknown) => "project (.aliases) \u{26a0} untrusted \u{2014} press 't' to trust"@,
        Some(ProjectTrustState::Untrusted) => "project (.aliases) \u{26a0} blocked \u{2014} press 't' to trust"@,
        Some(ProjectTrustState::Tampered) =>
            "project (.aliases) \u{26a0} modified since last trust \u{2014} press 't' to re-trust"@,
        _ => "project (.aliases)"@,
    }
}

/// Is there a project header: aliases to show, or a file not trusted yet?
pub open spec fn shows_project(project: Option<Seq<(Seq<char>, AliasSpec)>>, trust: Option<ProjectTrustState>) -> bool {
    (project matches Some(p) && p.len() > 0) || trust == Some(ProjectTrustState::Unknown) || trust == Some(
        ProjectTrustState::Untrusted,
    ) || trust == Some(ProjectTrustState::Tampered)
}

/// The project header closing the active zone, and its aliases.
pub open spec fn project_block(project: Option<Seq<(Seq<char>, AliasSpec)>>, trust: Option<ProjectTrustState>) -> Seq<
    NodeSpec,
> {
    if !shows_project(project, trust) {
        Seq::empty()
    } else {
        seq![header_node(NodeKind::ProjectHeader, false, project_label(trust), TREE_LAST@, "    "@, trust)]
            + match project {
            Some(pairs) => pairs.map_values(
                |p: (Seq<char>, AliasSpec)| alias_node(IdSpec::Project(p.0), p.1.command, p.0, "    "@),
            ),
            None => Seq::empty(),
        }
    }
}

/// Rows for inactive profiles: a header without connector and its aliases.
pub open spec fn inactive_blocks(profiles: Seq<Profile>, names: Seq<Seq<char>>) -> Seq<NodeSpec>
    decreases names.len(),
{
    if names.len() == 0 {
        Seq::empty()
    } else {
        let name = names.last();
        inactive_blocks(profiles, names.drop_last()) + seq![
            header_node(NodeKind::ProfileHeader, false, name, Seq::empty(), TREE_SPACE@, None),
        ] + profile_alias_nodes(name, profile_pairs(profiles, name), TREE_SPACE@)
    }
}

/// The rows of the full tree.
pub open spec fn tree_rows(
    global: Seq<(Seq<char>, AliasSpec)>,
    profiles: Seq<Profile>,
    active: Seq<Seq<char>>,
    project: Option<Seq<(Seq<char>, AliasSpec)>>,
    trust: Option<ProjectTrustState>,
) -> Seq<NodeSpec> {
    let an = active_names(profiles, active);
    let hp = shows_project(project, trust);
    let children = global.len() + an.len() + (if hp {
        1int
    } else {
        0
    });
    seq![header_node(NodeKind::GlobalHeader, false, "global"@, Seq::empty(), Seq::empty(), None)]
        + global_alias_nodes(global, children) + active_blocks(profiles, an, an.len() as int, hp) + project_block(
        project,
        trust,
    ) + inactive_blocks(profiles, inactive_names(profiles, active))
}

fn push_node(nodes: &mut Vec<TreeNode>, n: TreeNode)
    ensures
        nodes_view(final(nodes)@) == nodes_view(old(nodes)@).push(n@),
{
    let ghost before = nodes_view(nodes@);
    nodes.push(n);
    assert(nodes_view(nodes@) =~= before.push(n@));
}

fn header(
    kind: NodeKind,
    is_active: bool,
    label: String,
    prefix: String,
    content_prefix: String,
    trust: Option<ProjectTrustState>,
) -> (r: TreeNode)
    ensures
        r@ == header_node(kind, is_active, label@, prefix@, content_prefix@, trust),
{
    TreeNode {
        kind,
        alias_id: None,
        alias_command: None,
        is_active,
        label,
        prefix,
        content_prefix,
        project_trust: trust,
    }
}

fn alias_row(id: AliasId, command: &str, label: String, content_prefix: String) -> (r: TreeNode)
    ensures
        r@ == alias_node(id@, command@, label@, content_prefix@),
{
    let r = TreeNode {
        kind: NodeKind::AliasItem,
        alias_id: Some(id),
        alias_command: Some(string_from(command)),
        is_active: false,
        label,
        prefix: String::new(),
        content_prefix,
        project_trust: None,
    };
    assert(r@.prefix =~= Seq::<char>::empty());
    r
}

/// The active profile names that exist, in activation order.
fn existing_active(profiles: &ProfileConfig, active: &[String]) -> (r: Vec<String>)
    ensures
        views(r@) == active_names(profiles.profiles@, views(active@)),
{
    let mut r: Vec<String> = Vec::new();
    let mut i: usize = 0;
    while i < active.len()
        invariant
            i <= active@.len(),
            views(r@) == active_names(profiles.profiles@, views(active@.take(i as int))),
        decreases active@.len() - i,
    {
        proof {
            assert(views(active@.take(i + 1)).drop_last() =~= views(active@.take(i as int)));
            assert(views(active@.take(i + 1)).last() == active@[i as int]@);
        }
        if profiles.get_profile_by_name(active[i].as_str()).is_some() {
            let ghost before = views(r@);
            let n = active[i].clone();
            r.push(n);
            proof {
                assert(views(r@) =~= before.push(n@));
            }
        }
        i = i + 1;
    }
    proof {
        assert(active@.take(active@.len() as int) =~= active@);
    }
    r
}

/// The names of the profiles not active, in file order.
fn inactive(profiles: &ProfileConfig, active: &[String]) -> (r: Vec<String>)
    ensures
        views(r@) == inactive_names(profiles.profiles@, views(active@)),
{
    let ps = &profiles.profiles;
    let mut r: Vec<String> = Vec::new();
    let mut i: usize = 0;
    while i < ps.len()
        invariant
            i <= ps@.len(),
            ps == &profiles.profiles,
            views(r@) == inactive_names(ps@.take(i as int), views(active@)),
        decreases ps@.len() - i,
    {
        proof {
            assert(ps@.take(i + 1).drop_last() =~= ps@.take(i as int));
            assert(ps@.take(i + 1).last() == ps@[i as int]);
        }
        if !contains_str(active, ps[i].name.as_str()) {
            let ghost before = views(r@);
            let n = ps[i].name.clone();
            r.push(n);
            proof {
                assert(views(r@) =~= before.push(n@));
            }
        }
        i = i + 1;
    }
    proof {
        assert(ps@.take(ps@.len() as int) =~= ps@);
    }
    r
}

fn push_profile_aliases(nodes: &mut Vec<TreeNode>, profile: &str, aliases: &AliasSet, cp: &str)
    ensures
        nodes_view(final(nodes)@) == nodes_view(old(nodes)@) + profile_alias_nodes(profile@, aliases.pairs(), cp@),
{
    let e = aliases.entries();
    let ghost pp = aliases.pairs();
    let ghost start = nodes_view(nodes@);
    let ghost f = |p: (Seq<char>, AliasSpec)| alias_node(IdSpec::Profile(profile@, p.0), p.1.command, p.0, cp@);
    let mut i: usize = 0;
    while i < e.len()
        invariant
            i <= e@.len(),
            e@.map_values(|p: (crate::alias::AliasName, crate::alias::TomlAlias)| (p.0@, p.1@)) == pp,
            f == (|p: (Seq<char>, AliasSpec)| alias_node(IdSpec::Profile(profile@, p.0), p.1.command, p.0, cp@)),
            nodes_view(nodes@) == start + pp.take(i as int).map_values(f),
        decreases e@.len() - i,
    {
        proof {
            assert(pp[i as int] == (e@[i as int].0@, e@[i as int].1@));
            assert(pp.take(i + 1).map_values(f) =~= pp.take(i as int).map_values(f).push(f(pp[i as int])));
        }
        let id = AliasId::Profile { profile_name: string_from(profile), alias_name: e[i].0.to_string() };
        let row = alias_row(id, e[i].1.command(), e[i].0.to_string(), string_from(cp));
        push_node(nodes, row);
        i = i + 1;
    }
    proof {
        assert(pp.take(e@.len() as int) =~= pp);
    }
}

fn push_global_aliases(nodes: &mut Vec<TreeNode>, global: &AliasSet, closes_zone: bool)
    ensures
        nodes_view(final(nodes)@) == nodes_view(old(nodes)@) + global_alias_nodes(
            global.pairs(),
            if closes_zone {
                global.pairs().len() as int
            } else {
                global.pairs().len() + 1int
            },
        ),
{
    let e = global.entries();
    let ghost pp = global.pairs();
    let ghost children: int = if closes_zone {
        pp.len() as int
    } else {
        pp.len() + 1int
    };
    let ghost start = nodes_view(nodes@);
    let n = e.len();
    let mut i: usize = 0;
    while i < n
        invariant
            i <= n,
            n == e@.len(),
            e@.map_values(|p: (crate::alias::AliasName, crate::alias::TomlAlias)| (p.0@, p.1@)) == pp,
            children == (if closes_zone {
                pp.len() as int
            } else {
                pp.len() + 1int
            }),
            nodes_view(nodes@) == start + global_alias_nodes(pp.take(i as int), children),
        decreases n - i,
    {
        proof {
            assert(pp[i as int] == (e@[i as int].0@, e@[i as int].1@));
            assert(pp.take(i + 1).drop_last() =~= pp.take(i as int));
            assert(pp.take(i + 1).last() == pp[i as int]);
        }
        let cp = if closes_zone && i + 1 == n {
            string_from(TREE_SPACE)
        } else {
            string_from(TREE_TRUNK)
        };
        let id = AliasId::Global { alias_name: e[i].0.to_string() };
        let row = alias_row(id, e[i].1.command(), e[i].0.to_string(), cp);
        let ghost before = nodes_view(nodes@);
        push_node(nodes, row);
        proof {
            assert(nodes_view(nodes@) =~= start + global_alias_nodes(pp.take(i + 1), children));
        }
        i = i + 1;
    }
    proof {
        assert(pp.take(n as int) =~= pp);
    }
}

fn push_active_blocks(nodes: &mut Vec<TreeNode>, profiles: &ProfileConfig, names: &[String], has_project: bool)
    ensures
        nodes_view(final(nodes)@) == nodes_view(old(nodes)@) + active_blocks(
            profiles.profiles@,
            views(names@),
            names@.len() as int,
            has_project,
        ),
{
    let ghost start = nodes_view(nodes@);
    let n = names.len();
    let mut i: usize = 0;
    while i < n
        invariant
            i <= n,
            n == names@.len(),
            nodes_view(nodes@) == start + active_blocks(profiles.profiles@, views(names@.take(i as int)), n as int, has_project),
        decreases n - i,
    {
        proof {
            assert(views(names@.take(i + 1)).drop_last() =~= views(names@.take(i as int)));
            assert(views(names@.take(i + 1)).last() == names@[i as int]@);
        }
        let is_last = i + 1 == n && !has_project;
        let connector = if is_last {
            string_from(TREE_LAST)
        } else {
            string_from(TREE_BRANCH)
        };
        let mut cp = if is_last {
            string_from(TREE_SPACE)
        } else {
            string_from(TREE_TRUNK)
        };
        push_str(&mut cp, "  ");
        let name = names[i].as_str();
        let h = header(NodeKind::ProfileHeader, true, string_from(name), connector, string_from(cp.as_str()), None);
        let ghost mid0 = nodes_view(nodes@);
        push_node(nodes, h);
        let ghost mid = nodes_view(nodes@);
        match profiles.get_profile_by_name(name) {
            Some(p) => {
                push_profile_aliases(nodes, name, &p.aliases, cp.as_str());
            },
            None => {
                assert(profile_alias_nodes(name@, Seq::empty(), cp@) =~= Seq::<NodeSpec>::empty());
                assert(nodes_view(nodes@) =~= mid + Seq::<NodeSpec>::empty());
            },
        }
        proof {
            assert(nodes_view(nodes@) =~= start + active_blocks(
                profiles.profiles@,
                views(names@.take(i + 1)),
                n as int,
                has_project,
            ));
        }
        i = i + 1;
    }
    proof {
        assert(names@.take(n as int) =~= names@);
    }
}

fn push_inactive_blocks(nodes: &mut Vec<TreeNode>, profiles: &ProfileConfig, names: &[String])
    ensures
        nodes_view(final(nodes)@) == nodes_view(old(nodes)@) + inactive_blocks(profiles.profiles@, views(names@)),
{
    let ghost start = nodes_view(nodes@);
    let n = names.len();
    let mut i: usize = 0;
    while i < n
        invariant
            i <= n,
            n == names@.len(),
            nodes_view(nodes@) == start + inactive_blocks(profiles.profiles@, views(names@.take(i as int))),
        decreases n - i,
    {
        proof {
            assert(views(names@.take(i + 1)).drop_last() =~= views(names@.take(i as int)));
            assert(views(names@.take(i + 1)).last() == names@[i as int]@);
        }
        let name = names[i].as_str();
        let h = header(NodeKind::ProfileHeader, false, string_from(name), String::new(), string_from(TREE_SPACE), None);
        assert(h@.prefix =~= Seq::<char>::empty());
        push_node(nodes, h);
        let ghost mid = nodes_view(nodes@);
        match profiles.get_profile_by_name(name) {
            Some(p) => {
                push_profile_aliases(nodes, name, &p.aliases, TREE_SPACE);
            },
            None => {
                assert(profile_alias_nodes(name@, Seq::empty(), TREE_SPACE@) =~= Seq::<NodeSpec>::empty());
                assert(nodes_view(nodes@) =~= mid + Seq::<NodeSpec>::empty());
            },
        }
        proof {
            assert(nodes_view(nodes@) =~= start + inactive_blocks(profiles.profiles@, views(names@.take(i + 1))));
        }
        i = i + 1;
    }
    proof {
        assert(names@.take(n as int) =~= names@);
    }
}

fn project_label_text(trust: Option<ProjectTrustState>) -> (r: String)
    ensures
        r@ == project_label(trust),
{
    match trust {
        Some(ProjectTrustState::Unknown) => string_from("project (.aliases) \u{26a0} untrusted \u{2014} press 't' to trust"),
        Some(ProjectTrustState::Untrusted) => string_from("project (.aliases) \u{26a0} blocked \u{2014} press 't' to trust"),
        Some(ProjectTrustState::Tampered) => string_from(
            "project (.aliases) \u{26a0} modified since last trust \u{2014} press 't' to re-trust",
        ),
        _ => string_from("project (.aliases)"),
    }
}

fn push_project_block(nodes: &mut Vec<TreeNode>, project: Option<&ProjectAliases>, trust: Option<ProjectTrustState>)
    ensures
        nodes_view(final(nodes)@) == nodes_view(old(nodes)@) + project_block(
            match project {
                Some(p) => Some(p.aliases.pairs()),
                None => None,
            },
            trust,
        ),
{
    let ghost pj = match project {
        Some(p) => Some(p.aliases.pairs()),
        None => None,
    };
    let ghost start = nodes_view(nodes@);
    let shows = match project {
        Some(p) => !p.aliases.is_empty(),
        None => false,
    } || match trust {
        Some(ProjectTrustState::Unknown) | Some(ProjectTrustState::Untrusted) | Some(ProjectTrustState::Tampered) => true,
        _ => false,
    };
    if !shows {
        assert(nodes_view(nodes@) =~= start + Seq::<NodeSpec>::empty());
        return;
    }
    let h = header(
        NodeKind::ProjectHeader,
        false,
        project_label_text(trust),
        string_from(TREE_LAST),
        string_from("    "),
        trust,
    );
    push_node(nodes, h);
    let ghost mid = nodes_view(nodes@);
    match project {
        Some(p) => {
            let e = p.aliases.entries();
            let ghost pp = p.aliases.pairs();
            let ghost f = |q: (Seq<char>, AliasSpec)| alias_node(IdSpec::Project(q.0), q.1.command, q.0, "    "@);
            let mut i: usize = 0;
            while i < e.len()
                invariant
                    i <= e@.len(),
                    e@.map_values(|q: (crate::alias::AliasName, crate::alias::TomlAlias)| (q.0@, q.1@)) == pp,
                    f == (|q: (Seq<char>, AliasSpec)| alias_node(IdSpec::Project(q.0), q.1.command, q.0, "    "@)),
                    nodes_view(nodes@) == mid + pp.take(i as int).map_values(f),
                decreases e@.len() - i,
            {
                proof {
                    assert(pp[i as int] == (e@[i as int].0@, e@[i as int].1@));
                    assert(pp.take(i + 1).map_values(f) =~= pp.take(i as int).map_values(f).push(f(pp[i as int])));
                }
                let id = AliasId::Project { alias_name: e[i].0.to_string() };
                let row = alias_row(id, e[i].1.command(), e[i].0.to_string(), string_from("    "));
                push_node(nodes, row);
                i = i + 1;
            }
            proof {
                assert(pp.take(e@.len() as int) =~= pp);
            }
        },
        None => {
            assert(nodes_view(nodes@) =~= mid + Seq::<NodeSpec>::empty());
        },
    }
}

/// Builds the tree rows: the global header and aliases, the active
/// profiles in activation order, the project, then the inactive profiles.
pub fn build_tree_from_parts(
    global_aliases: &AliasSet,
    profiles: &ProfileConfig,
    active_profiles: &[String],
    project: Option<&ProjectAliases>,
    project_trust: Option<ProjectTrustState>,
) -> (r: Vec<TreeNode>)
    ensures
        nodes_view(r@) == tree_rows(
            global_aliases.pairs(),
            profiles.profiles@,
            views(active_profiles@),
            match project {
                Some(p) => Some(p.aliases.pairs()),
                None => None,
            },
            project_trust,
        ),
{
    let ghost pj = match project {
        Some(p) => Some(p.aliases.pairs()),
        None => None,
    };
    let has_project = match project {
        Some(p) => !p.aliases.is_empty(),
        None => false,
    } || match project_trust {
        Some(ProjectTrustState::Unknown) | Some(ProjectTrustState::Untrusted) | Some(ProjectTrustState::Tampered) => true,
        _ => false,
    };
    let actives = existing_active(profiles, active_profiles);
    let inactives = inactive(profiles, active_profiles);
    let mut nodes: Vec<TreeNode> = Vec::new();
    let g = header(NodeKind::GlobalHeader, false, string_from("global"), String::new(), String::new(), None);
    assert(g@.prefix =~= Seq::<char>::empty());
    assert(g@.content_prefix =~= Seq::<char>::empty());
    push_node(&mut nodes, g);
    let closes = actives.len() == 0 && !has_project;
    push_global_aliases(&mut nodes, global_aliases, closes);
    proof {
        let an = active_names(profiles.profiles@, views(active_profiles@));
        let children = global_aliases.pairs().len() + an.len() + (if has_project {
            1int
        } else {
            0
        });
        assert(views(actives@).len() == actives@.len());
        if !closes {
            lemma_global_nodes_not_last(global_aliases.pairs(), children, global_aliases.pairs().len() + 1int);
        }
    }
    push_active_blocks(&mut nodes, profiles, actives.as_slice(), has_project);
    push_project_block(&mut nodes, project, project_trust);
    push_inactive_blocks(&mut nodes, profiles, inactives.as_slice());
    nodes
}

/// The rows of global aliases depend only on which of them, if any,
/// closes the zone.
proof fn lemma_global_nodes_not_last(pairs: Seq<(Seq<char>, AliasSpec)>, a: int, b: int)
    requires
        a >= pairs.len() + 1,
        b >= pairs.len() + 1,
    ensures
        global_alias_nodes(pairs, a) == global_alias_nodes(pairs, b),
    decreases pairs.len(),
{
    if pairs.len() > 0 {
        lemma_global_nodes_not_last(pairs.drop_last(), a, b);
    }
}

/// The rows of the destination tree: headers only, in the same layout.
pub open spec fn dest_rows(profiles: Seq<Profile>, active: Seq<Seq<char>>, has_project: bool) -> Seq<NodeSpec> {
    let an = active_names(profiles, active);
    seq![header_node(NodeKind::GlobalHeader, false, "global"@, Seq::empty(), Seq::empty(), None)]
        + dest_active_headers(an, an.len() as int, has_project) + (if has_project {
        seq![header_node(NodeKind::ProjectHeader, false, "project (.aliases)"@, TREE_LAST@, TREE_SPACE@, None)]
    } else {
        Seq::empty()
    }) + inactive_names(profiles, active).map_values(
        |n: Seq<char>| header_node(NodeKind::ProfileHeader, false, n, Seq::empty(), Seq::empty(), None),
    )
}

/// Headers for the active profiles of the destination tree.
pub open spec fn dest_active_headers(names: Seq<Seq<char>>, total: int, has_project: bool) -> Seq<NodeSpec>
    decreases names.len(),
{
    if names.len() == 0 {
        Seq::empty()
    } else {
        let i = names.len() - 1;
        let is_last = i == total - 1 && !has_project;
        dest_active_headers(names.drop_last(), total, has_project) + seq![
            header_node(
                NodeKind::ProfileHeader,
                true,
                names.last(),
                if is_last {
                    TREE_LAST@
                } else {
                    TREE_BRANCH@
                },
                if is_last {
                    TREE_SPACE@
                } else {
                    TREE_TRUNK@
                },
                None,
            ),
        ]
    }
}

/// Builds the destination tree: the scopes an alias can go to.
pub fn build_dest_tree_from_parts(
    global_aliases: &AliasSet,
    profiles: &ProfileConfig,
    active_profiles: &[String],
    has_project: bool,
) -> (r: Vec<TreeNode>)
    ensures
        nodes_view(r@) == dest_rows(profiles.profiles@, views(active_profiles@), has_project),
{
    let active_names = existing_active(profiles, active_profiles);
    let inactive_names = inactive(profiles, active_profiles);
    let mut nodes: Vec<TreeNode> = Vec::new();
    let g = header(NodeKind::GlobalHeader, false, string_from("global"), String::new(), String::new(), None);
    assert(g@.prefix =~= Seq::<char>::empty());
    assert(g@.content_prefix =~= Seq::<char>::empty());
    push_node(&mut nodes, g);
    let ghost start = nodes_view(nodes@);
    let ghost an = views(active_names@);
    let n = active_names.len();
    let mut i: usize = 0;
    while i < n
        invariant
            i <= n,
            n == active_names@.len(),
            an == views(active_names@),
            nodes_view(nodes@) == start + dest_active_headers(an.take(i as int), n as int, has_project),
        decreases n - i,
    {
        proof {
            assert(an.take(i + 1).drop_last() =~= an.take(i as int));
            assert(an.take(i + 1).last() == an[i as int]);
        }
        let is_last = i + 1 == n && !has_project;
        let connector = if is_last {
            string_from(TREE_LAST)
        } else {
            string_from(TREE_BRANCH)
        };
        let cp = if is_last {
            string_from(TREE_SPACE)
        } else {
            string_from(TREE_TRUNK)
        };
        let h = header(NodeKind::ProfileHeader, true, active_names[i].clone(), connector, cp, None);
        push_node(&mut nodes, h);
        i = i + 1;
    }
    proof {
        assert(an.take(n as int) =~= an);
    }
    let ghost mid = nodes_view(nodes@);
    if has_project {
        let h = header(
            NodeKind::ProjectHeader,
            false,
            string_from("project (.aliases)"),
            string_from(TREE_LAST),
            string_from(TREE_SPACE),
            None,
        );
        push_node(&mut nodes, h);
    } else {
        assert(nodes_view(nodes@) =~= mid + Seq::<NodeSpec>::empty());
    }
    let ghost mid2 = nodes_view(nodes@);
    let ghost inn = views(inactive_names@);
    let ghost f = |m: Seq<char>| header_node(NodeKind::ProfileHeader, false, m, Seq::empty(), Seq::empty(), None);
    let mut j: usize = 0;
    while j < inactive_names.len()
        invariant
            j <= inactive_names@.len(),
            inn == views(inactive_names@),
            f == (|m: Seq<char>| header_node(NodeKind::ProfileHeader, false, m, Seq::empty(), Seq::empty(), None)),
            nodes_view(nodes@) == mid2 + inn.take(j as int).map_values(f),
        decreases inactive_names@.len() - j,
    {
        proof {
            assert(inn.take(j + 1).map_values(f) =~= inn.take(j as int).map_values(f).push(f(inn[j as int])));
        }
        let h = header(NodeKind::ProfileHeader, false, inactive_names[j].clone(), String::new(), String::new(), None);
        assert(h@.prefix =~= Seq::<char>::empty());
        assert(h@.content_prefix =~= Seq::<char>::empty());
        push_node(&mut nodes, h);
        j = j + 1;
    }
    proof {
        assert(inn.take(inactive_names@.len() as int) =~= inn);
    }
    nodes
}

} // verus!

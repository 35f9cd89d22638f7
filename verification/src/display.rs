//! The `am ls` listing and the profile overview.
use vstd::prelude::*;

use unicode_width::UnicodeWidthStr;

use crate::alias::{AliasDisplayFilter, AliasSet, AliasSpec};
use crate::described::Described;
use crate::profile::{first_named, Profile, ProfileConfig};
use crate::project::ProjectTrust;
use crate::strmap::{entries_view, lemma_sorted_pairs_of, sorted_pairs};
use crate::subcommand::{grouped, EntrySpec, SubcommandEntry, SubcommandGroup, SubcommandSet, SubSpec};
use crate::text::{decimal, decimal_string, join_spec, join_strs, push_str, str_equal, string_from, views};

verus! {

/// The displayed width in columns that `unicode-width` reports for a text.
pub uninterp spec fn str_width(s: Seq<char>) -> usize;

/// `UnicodeWidthStr::width` from the unicode-width crate: the text's width
/// in terminal columns. The contract claims only that the width is a
/// function of the text.
#[verifier::external_body]
fn text_width(s: &str) -> (r: usize)
    ensures
        r == str_width(s@),
{
    UnicodeWidthStr::width(s)
}

/// A listing item: literal text, or an aligned entry line.
pub enum ItemSpec {
    Header(Seq<char>),
    Row(Seq<char>, Seq<char>, Option<Seq<char>>),
}

/// A listing entry: connector prefix, body, and optional description.
pub struct Row {
    pub prefix: String,
    pub body: String,
    pub description: Option<String>,
}

/// A piece of the listing: literal text, or an entry taking part in the
/// alignment of descriptions.
pub enum OutputItem {
    Header(String),
    Row(Row),
}

impl View for OutputItem {
    type V = ItemSpec;

    open spec fn view(&self) -> ItemSpec {
        match self {
            OutputItem::Header(s) => ItemSpec::Header(s@),
            OutputItem::Row(r) => ItemSpec::Row(
                r.prefix@,
                r.body@,
                crate::alias::opt_view(r.description),
            ),
        }
    }
}

/// The views of a list of items.
pub open spec fn item_views(v: Seq<OutputItem>) -> Seq<ItemSpec> {
    v.map_values(|i: OutputItem| i@)
}

/// Tree connector: corner for the last child, branch otherwise.
pub open spec fn conn(last: bool) -> Seq<char> {
    if last {
        "\u{2570}\u{2500}"@
    } else {
        "\u{251c}\u{2500}"@
    }
}

/// The items for aliases, `total` being the number of siblings in the section.
pub open spec fn alias_items(prefix: Seq<char>, pairs: Seq<(Seq<char>, AliasSpec)>, total: int) -> Seq<
    ItemSpec,
>
    decreases pairs.len(),
{
    if pairs.len() == 0 {
        Seq::empty()
    } else {
        let i = pairs.len() - 1;
        let p = pairs.last();
        alias_items(prefix, pairs.drop_last(), total) + seq![
            ItemSpec::Header("\n"@),
            ItemSpec::Row(
                prefix + conn(i + 1 == total) + " "@,
                p.0 + " \u{2192} "@ + p.1.command,
                p.1.description,
            ),
        ]
    }
}

/// The items for the entries of one subcommand group.
pub open spec fn entry_items(inner: Seq<char>, es: Seq<EntrySpec>, n: int) -> Seq<ItemSpec>
    decreases es.len(),
{
    if es.len() == 0 {
        Seq::empty()
    } else {
        let k = es.len() - 1;
        let e = es.last();
        entry_items(inner, es.drop_last(), n) + seq![
            ItemSpec::Header("\n"@),
            ItemSpec::Row(
                inner + conn(k + 1 == n) + " "@,
                join_spec(e.shorts, " "@) + " \u{2192} "@ + join_spec(e.longs, " "@),
                e.description,
            ),
        ]
    }
}

/// The items for subcommand groups following `alias_count` aliases.
pub open spec fn group_items(
    prefix: Seq<char>,
    groups: Seq<(Seq<char>, Seq<EntrySpec>)>,
    alias_count: int,
    total: int,
) -> Seq<ItemSpec>
    decreases groups.len(),
{
    if groups.len() == 0 {
        Seq::empty()
    } else {
        let gi = groups.len() - 1;
        let g = groups.last();
        let last = alias_count + gi + 1 == total;
        group_items(prefix, groups.drop_last(), alias_count, total) + seq![
            ItemSpec::Header("\n"@ + prefix + conn(last) + "\u{25c6} "@ + g.0 + " (subcommands)"@),
        ] + entry_items(
            if last {
                prefix + "  "@
            } else {
                prefix + "\u{2502} "@
            },
            g.1,
            g.1.len() as int,
        )
    }
}

/// The items of one section: its aliases, then its subcommand groups.
pub open spec fn section_items(
    prefix: Seq<char>,
    aliases: Seq<(Seq<char>, AliasSpec)>,
    subs: Seq<(Seq<char>, SubSpec)>,
) -> Seq<ItemSpec> {
    let groups = sorted_pairs(grouped(subs));
    let total = aliases.len() + groups.len();
    alias_items(prefix, aliases, total as int) + group_items(
        prefix,
        groups,
        aliases.len() as int,
        total as int,
    )
}

proof fn lemma_push2(v: Seq<OutputItem>, a: OutputItem, b: OutputItem)
    ensures
        item_views(v.push(a).push(b)) == item_views(v) + seq![a@, b@],
{
    assert(item_views(v.push(a).push(b)) =~= item_views(v) + seq![a@, b@]);
}

proof fn lemma_push1(v: Seq<OutputItem>, a: OutputItem)
    ensures
        item_views(v.push(a)) == item_views(v) + seq![a@],
{
    assert(item_views(v.push(a)) =~= item_views(v) + seq![a@]);
}

fn conn_text(last: bool) -> (r: &'static str)
    ensures
        r@ == conn(last),
{
    if last {
        "\u{2570}\u{2500}"
    } else {
        "\u{251c}\u{2500}"
    }
}

fn push_entry_items(items: &mut Vec<OutputItem>, inner: &str, entries: &Vec<SubcommandEntry>)
    ensures
        item_views(final(items)@) == item_views(old(items)@) + entry_items(
            inner@,
            entries@.map_values(|e: SubcommandEntry| e@),
            entries@.len() as int,
        ),
{
    let ghost es = entries@.map_values(|e: SubcommandEntry| e@);
    let ghost start = item_views(items@);
    let n = entries.len();
    let mut k: usize = 0;
    proof {
        assert(start + entry_items(inner@, es.take(0), n as int) =~= start);
    }
    while k < n
        invariant
            k <= n == entries@.len(),
            es == entries@.map_values(|e: SubcommandEntry| e@),
            item_views(items@) == start + entry_items(inner@, es.take(k as int), n as int),
        decreases n - k,
    {
        let e = &entries[k];
        let mut prefix = string_from(inner);
        push_str(&mut prefix, conn_text(k + 1 == n));
        push_str(&mut prefix, " ");
        let mut body = join_strs(e.short_subcommands.as_slice(), " ");
        push_str(&mut body, " \u{2192} ");
        let longs = join_strs(e.long_subcommands.as_slice(), " ");
        push_str(&mut body, longs.as_str());
        let a = OutputItem::Header(string_from("\n"));
        let b = OutputItem::Row(Row { prefix, body, description: crate::alias::dup_opt(&e.description) });
        proof {
            lemma_push2(items@, a, b);
            assert(es.take(k + 1).drop_last() =~= es.take(k as int));
            assert(es.take(k + 1).last() == e@);
        }
        items.push(a);
        items.push(b);
        proof {
            assert(item_views(items@) =~= start + entry_items(inner@, es.take(k + 1), n as int));
        }
        k = k + 1;
    }
    proof {
        assert(es.take(n as int) =~= es);
    }
}

fn render_items(items: &mut Vec<OutputItem>, prefix: &str, aliases: &AliasSet, subs: &SubcommandSet)
    ensures
        item_views(final(items)@) == item_views(old(items)@) + section_items(
            prefix@,
            aliases.pairs(),
            subs.pairs(),
        ),
{
    let groups_map = subs.group_by_program();
    let groups = groups_map.entries();
    let ghost gpairs = groups_map.spec_pairs();
    proof {
        lemma_sorted_pairs_of(gpairs);
    }
    let alias_entries = aliases.entries();
    let ghost apairs = aliases.pairs();
    let alias_count = alias_entries.len();
    let group_count = groups.len();
    let ghost total: int = alias_count + group_count;
    let ghost start = item_views(items@);
    let mut i: usize = 0;
    proof {
        assert(start + alias_items(prefix@, apairs.take(0), total) =~= start);
    }
    while i < alias_count
        invariant
            i <= alias_count == alias_entries@.len(),
            alias_entries@.map_values(|p: (crate::alias::AliasName, crate::alias::TomlAlias)| (p.0@, p.1@))
                == apairs,
            total == alias_count + group_count,
            item_views(items@) == start + alias_items(prefix@, apairs.take(i as int), total),
        decreases alias_count - i,
    {
        let name = &alias_entries[i].0;
        let alias = &alias_entries[i].1;
        let mut p = string_from(prefix);
        push_str(&mut p, conn_text(i + 1 == alias_count && group_count == 0));
        push_str(&mut p, " ");
        let mut body = string_from(name.as_str());
        push_str(&mut body, " \u{2192} ");
        push_str(&mut body, alias.command());
        let desc = match alias.description() {
            Some(d) => Some(string_from(d)),
            None => None,
        };
        let a = OutputItem::Header(string_from("\n"));
        let b = OutputItem::Row(Row { prefix: p, body, description: desc });
        proof {
            lemma_push2(items@, a, b);
            assert(apairs.take(i + 1).drop_last() =~= apairs.take(i as int));
            assert(apairs.take(i + 1).last() == apairs[i as int]);
            assert(apairs[i as int] == (name@, alias@));
        }
        items.push(a);
        items.push(b);
        proof {
            assert(item_views(items@) =~= start + alias_items(prefix@, apairs.take(i + 1), total));
        }
        i = i + 1;
    }
    proof {
        assert(apairs.take(alias_count as int) =~= apairs);
    }
    let ghost mid = item_views(items@);
    let ghost gv = gpairs;
    let mut gi: usize = 0;
    proof {
        assert(mid + group_items(prefix@, gv.take(0), alias_count as int, total) =~= mid);
    }
    while gi < groups.len()
        invariant
            gi <= groups@.len(),
            entries_view(groups@) == gv,
            total == alias_count + group_count,
            group_count == groups@.len(),
            item_views(items@) == mid + group_items(prefix@, gv.take(gi as int), alias_count as int, total),
        decreases groups@.len() - gi,
    {
        let program = &groups[gi].0;
        let entries = &groups[gi].1.0;
        let last = gi + 1 == group_count;
        let mut h = string_from("\n");
        push_str(&mut h, prefix);
        push_str(&mut h, conn_text(last));
        push_str(&mut h, "\u{25c6} ");
        push_str(&mut h, program.as_str());
        push_str(&mut h, " (subcommands)");
        let a = OutputItem::Header(h);
        proof {
            lemma_push1(items@, a);
        }
        items.push(a);
        let mut inner = string_from(prefix);
        if last {
            push_str(&mut inner, "  ");
        } else {
            push_str(&mut inner, "\u{2502} ");
        }
        push_entry_items(items, inner.as_str(), entries);
        proof {
            assert(gv[gi as int] == (program@, groups@[gi as int].1@));
            assert(gv.take(gi + 1).drop_last() =~= gv.take(gi as int));
            assert(gv.take(gi + 1).last() == gv[gi as int]);
            assert(item_views(items@) =~= mid + group_items(prefix@, gv.take(gi + 1), alias_count as int, total));
        }
        gi = gi + 1;
    }
    proof {
        assert(gv.take(groups@.len() as int) =~= gv);
    }
}

/// Index of the first occurrence of `n` in `names`, or -1.
pub open spec fn first_index(names: Seq<Seq<char>>, n: Seq<char>) -> int
    decreases names.len(),
{
    if names.len() == 0 {
        -1
    } else {
        let f = first_index(names.drop_last(), n);
        if f >= 0 {
            f
        } else if names.last() == n {
            names.len() - 1
        } else {
            -1
        }
    }
}

/// For each active name, in activation order, that names a profile: the
/// profile's index and its 1-based activation order.
pub open spec fn active_list(ps: Seq<Profile>, names: Seq<Seq<char>>, k: int) -> Seq<(int, int)>
    decreases k,
{
    if k <= 0 {
        Seq::empty()
    } else {
        let prev = active_list(ps, names, k - 1);
        match first_named(ps, names[k - 1]) {
            Some(i) => prev.push((i, first_index(names, names[k - 1]) + 1)),
            None => prev,
        }
    }
}

/// The trunk continuing below a profile.
pub open spec fn trunk(last: bool) -> Seq<char> {
    if last {
        " "@
    } else {
        "\u{2502}"@
    }
}

/// The items of the active profiles; `n` profiles in all, the last one
/// closing the tree unless a project follows.
pub open spec fn active_items(
    ps: Seq<Profile>,
    list: Seq<(int, int)>,
    n: int,
    project: bool,
) -> Seq<ItemSpec>
    decreases list.len(),
{
    if list.len() == 0 {
        Seq::empty()
    } else {
        let i = list.len() - 1;
        let p = ps[list.last().0];
        let last = i == n - 1 && !project;
        active_items(ps, list.drop_last(), n, project) + seq![
            ItemSpec::Header(
                "\n"@ + conn(last) + "\u{25cf} "@ + p.name@ + " (active: "@ + decimal(
                    list.last().1 as nat,
                ) + ")"@,
            ),
        ] + section_items(trunk(last) + "   "@, p.aliases.pairs(), p.subcommands.pairs()) + (if last {
            Seq::empty()
        } else {
            seq![ItemSpec::Header("\n"@ + trunk(last))]
        })
    }
}

/// The profiles whose names are not active, in order.
pub open spec fn inactive_list(ps: Seq<Profile>, names: Seq<Seq<char>>) -> Seq<Profile> {
    ps.filter(|p: Profile| !names.contains(p.name@))
}

/// The items of the inactive profiles.
pub open spec fn inactive_items(ps: Seq<Profile>) -> Seq<ItemSpec>
    decreases ps.len(),
{
    if ps.len() == 0 {
        Seq::empty()
    } else {
        let p = ps.last();
        inactive_items(ps.drop_last()) + seq![ItemSpec::Header("\n\u{25cb} "@ + p.name@)] + section_items(
            "  "@,
            p.aliases.pairs(),
            p.subcommands.pairs(),
        ) + seq![ItemSpec::Header("\n"@)]
    }
}

/// The project header line.
pub open spec fn project_header(path: Seq<char>) -> Seq<char> {
    "\n\u{2570}\u{2500}\u{1f4c1} project ("@ + path + ")"@
}

/// The items of the project file.
pub open spec fn project_items(t: ProjectTrust) -> Seq<ItemSpec> {
    match t {
        ProjectTrust::Trusted(p, path) => seq![ItemSpec::Header(project_header(path@))] + section_items(
            "  "@,
            p.aliases.pairs(),
            p.subcommands.pairs(),
        ),
        ProjectTrust::Unknown(path) => seq![
            ItemSpec::Header(project_header(path@)),
            ItemSpec::Header(
                "\n       \u{26A0} untrusted \u{2014} run 'am trust' to review and allow"@,
            ),
        ],
        ProjectTrust::Tampered(path) => seq![
            ItemSpec::Header(project_header(path@)),
            ItemSpec::Header(
                "\n       \u{26A0} modified since last trust \u{2014} run 'am trust' to review and allow"@,
            ),
        ],
        ProjectTrust::Untrusted(path) => seq![
            ItemSpec::Header(project_header(path@)),
            ItemSpec::Header("\n       \u{26A0} blocked \u{2014} run 'am untrust --forget' to reset"@),
        ],
    }
}

/// All items of the listing, before alignment.
pub open spec fn listing_items(
    global_aliases: Seq<(Seq<char>, AliasSpec)>,
    global_subs: Seq<(Seq<char>, SubSpec)>,
    ps: Seq<Profile>,
    active: Seq<Seq<char>>,
    project: Option<ProjectTrust>,
    used_only: bool,
) -> Seq<ItemSpec> {
    let list = active_list(ps, active, active.len() as int);
    let has_active = list.len() > 0 || project is Some;
    let inactive = inactive_list(ps, active);
    seq![ItemSpec::Header("\u{1f310} global"@)] + section_items(
        if has_active {
            "\u{2502}  "@
        } else {
            "   "@
        },
        global_aliases,
        global_subs,
    ) + (if has_active {
        seq![ItemSpec::Header("\n\u{2502}"@)]
    } else {
        Seq::empty()
    }) + active_items(ps, list, list.len() as int, project is Some) + (match project {
        Some(t) => project_items(t),
        None => Seq::empty(),
    }) + (if !used_only && inactive.len() > 0 {
        seq![ItemSpec::Header("\n"@)] + inactive_items(inactive)
    } else {
        Seq::empty()
    })
}

/// The items with descriptions removed.
pub open spec fn strip_descriptions(items: Seq<ItemSpec>) -> Seq<ItemSpec> {
    items.map_values(
        |i: ItemSpec|
            match i {
                ItemSpec::Row(p, b, _) => ItemSpec::Row(p, b, None),
                h => h,
            },
    )
}

/// The widest described entry line: the column descriptions align to.
pub open spec fn target_col(items: Seq<ItemSpec>) -> int
    decreases items.len(),
{
    if items.len() == 0 {
        0
    } else {
        let rest = target_col(items.drop_last());
        match items.last() {
            ItemSpec::Row(p, b, Some(_)) => {
                let w = str_width(p) + str_width(b);
                if w > rest {
                    w
                } else {
                    rest
                }
            },
            _ => rest,
        }
    }
}

/// One item as text: described entries padded to `target`, or written
/// inline when padding would overflow the terminal but inline fits.
pub open spec fn render_item(i: ItemSpec, target: int, term_width: Option<usize>) -> Seq<char> {
    match i {
        ItemSpec::Header(s) => s,
        ItemSpec::Row(p, b, None) => p + b,
        ItemSpec::Row(p, b, Some(d)) => {
            let lw = str_width(p) + str_width(b);
            let padded = target + str_width("  # "@) + str_width(d);
            let inline = lw + str_width(" # "@) + str_width(d);
            let use_inline = match term_width {
                Some(w) => padded > w && inline <= w,
                None => false,
            };
            if use_inline {
                p + b + " # "@ + d
            } else {
                p + b + Seq::new(
                    (if target > lw {
                        target - lw
                    } else {
                        0
                    }) as nat,
                    |k: int| ' ',
                ) + "  # "@ + d
            }
        },
    }
}

/// All items as text.
pub open spec fn render_items_text(items: Seq<ItemSpec>, target: int, term_width: Option<usize>) -> Seq<
    char,
>
    decreases items.len(),
{
    if items.len() == 0 {
        Seq::empty()
    } else {
        render_items_text(items.drop_last(), target, term_width) + render_item(
            items.last(),
            target,
            term_width,
        )
    }
}

/// The whole listing.
pub open spec fn listing_text(
    global_aliases: Seq<(Seq<char>, AliasSpec)>,
    global_subs: Seq<(Seq<char>, SubSpec)>,
    ps: Seq<Profile>,
    active: Seq<Seq<char>>,
    project: Option<ProjectTrust>,
    used_only: bool,
    descriptions: bool,
    term_width: Option<usize>,
) -> Seq<char> {
    let raw = listing_items(global_aliases, global_subs, ps, active, project, used_only);
    let items = if descriptions {
        raw
    } else {
        strip_descriptions(raw)
    };
    render_items_text(items, target_col(items), term_width)
}

fn first_index_exec(names: &[String], n: &str) -> (r: usize)
    requires
        first_index(views(names@), n@) >= 0,
    ensures
        r as int == first_index(views(names@), n@),
{
    let mut i: usize = 0;
    while i < names.len()
        invariant
            i <= names@.len(),
            first_index(views(names@), n@) >= 0,
            first_index(views(names@.take(i as int)), n@) == -1,
        decreases names@.len() - i,
    {
        proof {
            assert(views(names@.take(i + 1)).drop_last() =~= views(names@.take(i as int)));
        }
        if str_equal(names[i].as_str(), n) {
            proof {
                lemma_first_index_prefix(views(names@), i + 1, n@);
                assert(views(names@.take(i + 1)) =~= views(names@).take(i + 1));
            }
            return i;
        }
        i = i + 1;
    }
    proof {
        assert(names@.take(names@.len() as int) =~= names@);
    }
    0
}

pub(crate) proof fn lemma_first_index_prefix(names: Seq<Seq<char>>, k: int, n: Seq<char>)
    requires
        0 < k <= names.len(),
        first_index(names.take(k), n) >= 0,
    ensures
        first_index(names, n) == first_index(names.take(k), n),
    decreases names.len(),
{
    if k < names.len() {
        assert(names.drop_last().take(k) =~= names.take(k));
        lemma_first_index_prefix(names.drop_last(), k, n);
    } else {
        assert(names.take(k) =~= names);
    }
}

proof fn lemma_first_index_found(names: Seq<Seq<char>>, k: int)
    requires
        0 <= k < names.len(),
    ensures
        0 <= first_index(names, names[k]) <= k,
    decreases names.len(),
{
    if k < names.len() - 1 {
        lemma_first_index_found(names.drop_last(), k);
    } else {
        let f = first_index(names.drop_last(), names[k]);
        lemma_first_index_bound(names.drop_last(), names[k]);
    }
}

proof fn lemma_first_index_bound(names: Seq<Seq<char>>, n: Seq<char>)
    ensures
        -1 <= first_index(names, n) < names.len(),
    decreases names.len(),
{
    if names.len() > 0 {
        lemma_first_index_bound(names.drop_last(), n);
    }
}

/// The active profiles as (index, activation order), in activation order.
fn active_pairs(config: &ProfileConfig, active_profiles: &[String]) -> (list: Vec<(usize, usize)>)
    ensures
        list@.map_values(|p: (usize, usize)| (p.0 as int, p.1 as int)) == active_list(
            config.profiles@,
            views(active_profiles@),
            active_profiles@.len() as int,
        ),
        forall|j: int| 0 <= j < list@.len() ==> (#[trigger] list@[j]).0 < config.profiles@.len(),
{
    let ghost ps = config.profiles@;
    let ghost names = views(active_profiles@);
    let mut list: Vec<(usize, usize)> = Vec::new();
    let mut k: usize = 0;
    while k < active_profiles.len()
        invariant
            k <= active_profiles@.len(),
            names == views(active_profiles@),
            ps == config.profiles@,
            list@.map_values(|p: (usize, usize)| (p.0 as int, p.1 as int)) == active_list(ps, names, k as int),
            forall|j: int| 0 <= j < list@.len() ==> (#[trigger] list@[j]).0 < ps.len(),
        decreases active_profiles@.len() - k,
    {
        let name = active_profiles[k].as_str();
        proof {
            crate::profile::lemma_first_named(ps, names[k as int]);
            assert(names[k as int] == name@);
        }
        let mut idx: usize = 0;
        let mut found = false;
        let mut i: usize = 0;
        while i < config.profiles.len() && !found
            invariant
                i <= config.profiles@.len(),
                ps == config.profiles@,
                !found ==> first_named(ps.take(i as int), name@) is None,
                found ==> idx < ps.len() && first_named(ps, name@) == Some(idx as int),
            decreases config.profiles@.len() - i,
        {
            proof {
                assert(ps.take(i + 1).drop_last() =~= ps.take(i as int));
            }
            if str_equal(config.profiles[i].name.as_str(), name) {
                proof {
                    assert(first_named(ps.take(i + 1), name@) == Some(i as int));
                    crate::profile::lemma_first_named_prefix(ps, i + 1, name@);
                }
                idx = i;
                found = true;
            }
            i = i + 1;
        }
        proof {
            if !found {
                assert(ps.take(ps.len() as int) =~= ps);
            }
        }
        let ghost lb = list@;
        if found {
            proof {
                lemma_first_index_found(names, k as int);
            }
            let order = first_index_exec(active_profiles, name) + 1;
            list.push((idx, order));
            proof {
                assert(list@ =~= lb.push((idx, order)));
                assert(list@.map_values(|p: (usize, usize)| (p.0 as int, p.1 as int)) =~= lb.map_values(|p: (usize, usize)| (p.0 as int, p.1 as int)).push((idx as int, order as int)));
            }
        }
        proof {
            assert(active_list(ps, names, k + 1) == (match first_named(ps, names[k as int]) {
                Some(j) => active_list(ps, names, k as int).push((j, first_index(names, names[k as int]) + 1)),
                None => active_list(ps, names, k as int),
            }));
        }
        k = k + 1;
    }
    list
}

fn push_active(
    items: &mut Vec<OutputItem>,
    config: &ProfileConfig,
    active_profiles: &[String],
    has_project: bool,
) -> (count: usize)
    ensures
        count == active_list(config.profiles@, views(active_profiles@), active_profiles@.len() as int).len(),
        item_views(final(items)@) == item_views(old(items)@) + active_items(
            config.profiles@,
            active_list(config.profiles@, views(active_profiles@), active_profiles@.len() as int),
            active_list(config.profiles@, views(active_profiles@), active_profiles@.len() as int).len() as int,
            has_project,
        ),
{
    let ghost ps = config.profiles@;
    let ghost names = views(active_profiles@);
    let ghost full = active_list(ps, names, names.len() as int);
    let list = active_pairs(config, active_profiles);
    let ghost lv = list@.map_values(|p: (usize, usize)| (p.0 as int, p.1 as int));
    let n = list.len();
    let ghost start = item_views(items@);
    let mut i: usize = 0;
    proof {
        assert(lv.take(0) =~= Seq::<(int, int)>::empty());
        assert(start + active_items(ps, lv.take(0), n as int, has_project) =~= start);
    }
    while i < n
        invariant
            i <= n == list@.len(),
            ps == config.profiles@,
            lv == list@.map_values(|p: (usize, usize)| (p.0 as int, p.1 as int)),
            forall|j: int| 0 <= j < list@.len() ==> (#[trigger] list@[j]).0 < ps.len(),
            item_views(items@) == start + active_items(ps, lv.take(i as int), n as int, has_project),
        decreases n - i,
    {
        let pi = list[i].0;
        let order = list[i].1;
        let profile = &config.profiles[pi];
        let last = i + 1 == n && !has_project;
        let mut h = string_from("\n");
        push_str(&mut h, conn_text(last));
        push_str(&mut h, "\u{25cf} ");
        push_str(&mut h, profile.name.as_str());
        push_str(&mut h, " (active: ");
        let d = decimal_string(order);
        push_str(&mut h, d.as_str());
        push_str(&mut h, ")");
        let a = OutputItem::Header(h);
        proof {
            lemma_push1(items@, a);
        }
        items.push(a);
        let mut prefix = string_from(if last { " " } else { "\u{2502}" });
        push_str(&mut prefix, "   ");
        render_items(items, prefix.as_str(), &profile.aliases, &profile.subcommands);
        if !last {
            let mut t = string_from("\n");
            push_str(&mut t, if last { " " } else { "\u{2502}" });
            let b = OutputItem::Header(t);
            proof {
                lemma_push1(items@, b);
            }
            items.push(b);
        }
        proof {
            assert(lv.take(i + 1).drop_last() =~= lv.take(i as int));
            assert(lv.take(i + 1).last() == (pi as int, order as int));
            assert(ps[pi as int] == *profile);
            assert(item_views(items@) =~= start + active_items(ps, lv.take(i + 1), n as int, has_project));
        }
        i = i + 1;
    }
    proof {
        assert(lv.take(n as int) =~= lv);
    }
    n
}

fn push_project(items: &mut Vec<OutputItem>, trust: &ProjectTrust)
    ensures
        item_views(final(items)@) == item_views(old(items)@) + project_items(*trust),
{
    let mut h = string_from("\n\u{2570}\u{2500}\u{1f4c1} project (");
    push_str(&mut h, trust.path());
    push_str(&mut h, ")");
    let a = OutputItem::Header(h);
    proof {
        lemma_push1(items@, a);
    }
    items.push(a);
    let ghost mid = item_views(items@);
    match trust {
        ProjectTrust::Trusted(p, _) => {
            render_items(items, "  ", &p.aliases, &p.subcommands);
        },
        ProjectTrust::Unknown(_) => {
            let b = OutputItem::Header(string_from("\n       \u{26A0} untrusted \u{2014} run 'am trust' to review and allow"));
            proof {
                lemma_push1(items@, b);
            }
            items.push(b);
        },
        ProjectTrust::Tampered(_) => {
            let b = OutputItem::Header(string_from("\n       \u{26A0} modified since last trust \u{2014} run 'am trust' to review and allow"));
            proof {
                lemma_push1(items@, b);
            }
            items.push(b);
        },
        ProjectTrust::Untrusted(_) => {
            let b = OutputItem::Header(string_from("\n       \u{26A0} blocked \u{2014} run 'am untrust --forget' to reset"));
            proof {
                lemma_push1(items@, b);
            }
            items.push(b);
        },
    }
    proof {
        assert(item_views(items@) =~= item_views(old(items)@) + project_items(*trust));
    }
}

fn is_active(active_profiles: &[String], name: &str) -> (r: bool)
    ensures
        r == views(active_profiles@).contains(name@),
{
    let mut i: usize = 0;
    while i < active_profiles.len()
        invariant
            i <= active_profiles@.len(),
            forall|j: int| 0 <= j < i ==> active_profiles@[j]@ != name@,
        decreases active_profiles@.len() - i,
    {
        if str_equal(active_profiles[i].as_str(), name) {
            assert(views(active_profiles@)[i as int] == name@);
            return true;
        }
        i = i + 1;
    }
    proof {
        if views(active_profiles@).contains(name@) {
            let j = choose|j: int| 0 <= j < views(active_profiles@).len() && views(active_profiles@)[j] == name@;
            assert(active_profiles@[j]@ == name@);
        }
    }
    false
}

fn inactive_profiles<'a>(config: &'a ProfileConfig, active_profiles: &[String]) -> (r: Vec<&'a Profile>)
    ensures
        r@.map_values(|p: &Profile| *p) == inactive_list(config.profiles@, views(active_profiles@)),
{
    let ghost ps = config.profiles@;
    let ghost names = views(active_profiles@);
    let ghost keep = |p: Profile| !names.contains(p.name@);
    let mut r: Vec<&'a Profile> = Vec::new();
    let mut i: usize = 0;
    proof {
        assert(ps.take(0).filter(keep) =~= Seq::<Profile>::empty());
    }
    while i < config.profiles.len()
        invariant
            i <= config.profiles@.len(),
            ps == config.profiles@,
            names == views(active_profiles@),
            keep == (|p: Profile| !names.contains(p.name@)),
            r@.map_values(|p: &Profile| *p) == ps.take(i as int).filter(keep),
        decreases config.profiles@.len() - i,
    {
        let p = &config.profiles[i];
        let ghost before = r@;
        proof {
            assert(ps.take(i + 1).drop_last() =~= ps.take(i as int));
            assert(ps.take(i + 1).last() == *p);
            reveal(Seq::filter);
            assert(ps.take(i + 1).filter(keep) == (if keep(*p) {
                ps.take(i as int).filter(keep).push(*p)
            } else {
                ps.take(i as int).filter(keep)
            }));
        }
        if !is_active(active_profiles, p.name.as_str()) {
            r.push(p);
            proof {
                assert(r@ =~= before.push(p));
                assert(r@.map_values(|p: &Profile| *p) =~= before.map_values(|p: &Profile| *p).push(*p));
            }
        }
        i = i + 1;
    }
    proof {
        assert(ps.take(ps.len() as int) =~= ps);
    }
    r
}

fn push_inactive(items: &mut Vec<OutputItem>, inactive: &Vec<&Profile>)
    ensures
        item_views(final(items)@) == item_views(old(items)@) + inactive_items(
            inactive@.map_values(|p: &Profile| *p),
        ),
{
    let ghost ps = inactive@.map_values(|p: &Profile| *p);
    let ghost start = item_views(items@);
    let mut i: usize = 0;
    proof {
        assert(start + inactive_items(ps.take(0)) =~= start);
    }
    while i < inactive.len()
        invariant
            i <= inactive@.len(),
            ps == inactive@.map_values(|p: &Profile| *p),
            item_views(items@) == start + inactive_items(ps.take(i as int)),
        decreases inactive@.len() - i,
    {
        let p = inactive[i];
        let mut h = string_from("\n\u{25cb} ");
        push_str(&mut h, p.name.as_str());
        let a = OutputItem::Header(h);
        proof {
            lemma_push1(items@, a);
        }
        items.push(a);
        render_items(items, "  ", &p.aliases, &p.subcommands);
        let b = OutputItem::Header(string_from("\n"));
        proof {
            lemma_push1(items@, b);
        }
        items.push(b);
        proof {
            assert(ps.take(i + 1).drop_last() =~= ps.take(i as int));
            assert(ps.take(i + 1).last() == *p);
            assert(item_views(items@) =~= start + inactive_items(ps.take(i + 1)));
        }
        i = i + 1;
    }
    proof {
        assert(ps.take(inactive@.len() as int) =~= ps);
    }
}

fn spaces(n: u128) -> (r: String)
    ensures
        r@ == Seq::new(n as nat, |k: int| ' '),
{
    let mut s = String::new();
    let mut i: u128 = 0;
    while i < n
        invariant
            i <= n,
            s@ == Seq::new(i as nat, |k: int| ' '),
        decreases n - i,
    {
        crate::text::push_char(&mut s, ' ');
        i = i + 1;
        assert(s@ =~= Seq::new(i as nat, |k: int| ' '));
    }
    s
}

fn render_row(row: &Row, target: u128, term_width: Option<usize>) -> (r: String)
    requires
        target < 0x1_0000_0000_0000_0000_0000,
    ensures
        r@ == render_item(
            ItemSpec::Row(row.prefix@, row.body@, crate::alias::opt_view(row.description)),
            target as int,
            term_width,
        ),
{
    let mut out = row.prefix.clone();
    push_str(&mut out, row.body.as_str());
    match &row.description {
        None => out,
        Some(desc) => {
            let pw = text_width(row.prefix.as_str()) as u128;
            let bw = text_width(row.body.as_str()) as u128;
            let dw = text_width(desc.as_str()) as u128;
            let gap_padded = text_width("  # ") as u128;
            let gap_inline = text_width(" # ") as u128;
            let line_width = pw + bw;
            let padded_width = target + gap_padded + dw;
            let inline_width = line_width + gap_inline + dw;
            let use_inline = match term_width {
                Some(w) => padded_width > w as u128 && inline_width <= w as u128,
                None => false,
            };
            if use_inline {
                push_str(&mut out, " # ");
                push_str(&mut out, desc.as_str());
            } else {
                let pad = if target > line_width {
                    target - line_width
                } else {
                    0
                };
                let sp = spaces(pad);
                push_str(&mut out, sp.as_str());
                push_str(&mut out, "  # ");
                push_str(&mut out, desc.as_str());
            }
            out
        },
    }
}

fn build_items(
    global_aliases: &AliasSet,
    global_subcommands: &SubcommandSet,
    config: &ProfileConfig,
    active_profiles: &[String],
    project: Option<&ProjectTrust>,
    used_only: bool,
) -> (r: Vec<OutputItem>)
    ensures
        item_views(r@) == listing_items(
            global_aliases.pairs(),
            global_subcommands.pairs(),
            config.profiles@,
            views(active_profiles@),
            match project {
                Some(t) => Some(*t),
                None => None,
            },
            used_only,
        ),
{
    let ghost ps = config.profiles@;
    let ghost names = views(active_profiles@);
    let mut items: Vec<OutputItem> = Vec::new();
    // Count the active profiles first: the global prefix depends on it.
    let mut probe: Vec<OutputItem> = Vec::new();
    let active_count = push_active(&mut probe, config, active_profiles, project.is_some());
    let has_active = active_count > 0 || project.is_some();
    let g = OutputItem::Header(string_from("\u{1f310} global"));
    items.push(g);
    proof {
        assert(item_views(items@) =~= seq![ItemSpec::Header("\u{1f310} global"@)]);
    }
    render_items(
        &mut items,
        if has_active {
            "\u{2502}  "
        } else {
            "   "
        },
        global_aliases,
        global_subcommands,
    );
    if has_active {
        let t = OutputItem::Header(string_from("\n\u{2502}"));
        proof {
            lemma_push1(items@, t);
        }
        items.push(t);
    }
    let ghost before_active = item_views(items@);
    let ghost probe_v = item_views(probe@);
    let ghost items_before = items@;
    let ghost probe_before = probe@;
    items.append(&mut probe);
    proof {
        assert(items@ == items_before + probe_before);
        assert(item_views(items@) =~= before_active + probe_v);
    }
    match project {
        Some(t) => push_project(&mut items, t),
        None => {},
    }
    let inactive = inactive_profiles(config, active_profiles);
    if !used_only && inactive.len() > 0 {
        let b = OutputItem::Header(string_from("\n"));
        proof {
            lemma_push1(items@, b);
        }
        items.push(b);
        push_inactive(&mut items, &inactive);
    }
    items
}

fn strip_items(items: &Vec<OutputItem>) -> (r: Vec<OutputItem>)
    ensures
        item_views(r@) == strip_descriptions(item_views(items@)),
{
    let ghost raw_v = item_views(items@);
    let mut stripped: Vec<OutputItem> = Vec::new();
    let mut i: usize = 0;
    while i < items.len()
        invariant
            i <= items@.len(),
            raw_v == item_views(items@),
            item_views(stripped@) == strip_descriptions(raw_v.take(i as int)),
        decreases items@.len() - i,
    {
        let it = match &items[i] {
            OutputItem::Header(s) => OutputItem::Header(s.clone()),
            OutputItem::Row(r) => OutputItem::Row(Row { prefix: r.prefix.clone(), body: r.body.clone(), description: None }),
        };
        proof {
            lemma_push1(stripped@, it);
            assert(raw_v.take(i + 1) =~= raw_v.take(i as int).push(raw_v[i as int]));
        }
        stripped.push(it);
        proof {
            assert(item_views(stripped@) =~= strip_descriptions(raw_v.take(i + 1)));
        }
        i = i + 1;
    }
    proof {
        assert(raw_v.take(raw_v.len() as int) =~= raw_v);
    }
    stripped
}

fn compute_target_column(items: &Vec<OutputItem>) -> (r: u128)
    ensures
        r as int == target_col(item_views(items@)),
        r < 0x1_0000_0000_0000_0000_0000,
{
    let ghost iv = item_views(items@);
    let mut target: u128 = 0;
    let mut i: usize = 0;
    while i < items.len()
        invariant
            i <= items@.len(),
            iv == item_views(items@),
            target as int == target_col(iv.take(i as int)),
            target < 0x1_0000_0000_0000_0000_0000,
        decreases items@.len() - i,
    {
        proof {
            assert(iv.take(i + 1).drop_last() =~= iv.take(i as int));
            assert(iv.take(i + 1).last() == iv[i as int]);
        }
        match &items[i] {
            OutputItem::Row(r) => {
                if r.description.is_some() {
                    let w = text_width(r.prefix.as_str()) as u128 + text_width(r.body.as_str()) as u128;
                    if w > target {
                        target = w;
                    }
                }
            },
            OutputItem::Header(_) => {},
        }
        i = i + 1;
    }
    proof {
        assert(iv.take(iv.len() as int) =~= iv);
    }
    target
}

fn render_all(items: &Vec<OutputItem>, target: u128, term_width: Option<usize>) -> (r: String)
    requires
        target < 0x1_0000_0000_0000_0000_0000,
    ensures
        r@ == render_items_text(item_views(items@), target as int, term_width),
{
    let ghost iv = item_views(items@);
    let mut output = String::new();
    let mut j: usize = 0;
    proof {
        assert(iv.take(0) =~= Seq::<ItemSpec>::empty());
    }
    while j < items.len()
        invariant
            j <= items@.len(),
            iv == item_views(items@),
            target < 0x1_0000_0000_0000_0000_0000,
            output@ == render_items_text(iv.take(j as int), target as int, term_width),
        decreases items@.len() - j,
    {
        match &items[j] {
            OutputItem::Header(s) => push_str(&mut output, s.as_str()),
            OutputItem::Row(r) => {
                let line = render_row(r, target, term_width);
                push_str(&mut output, line.as_str());
            },
        }
        proof {
            assert(iv.take(j + 1).drop_last() =~= iv.take(j as int));
            assert(iv.take(j + 1).last() == iv[j as int]);
        }
        j = j + 1;
    }
    proof {
        assert(iv.take(iv.len() as int) =~= iv);
    }
    output
}

/// The listing: global, then the active profiles in activation order and
/// the project file, joined by a tree trunk; then, unless only used
/// aliases are wanted, the other profiles. With `descriptions`, described
/// entries align their `#` column, falling back to one space where
/// padding would overflow `term_width` but the inline form fits.
pub fn render_listing(
    global_aliases: &AliasSet,
    global_subcommands: &SubcommandSet,
    config: &ProfileConfig,
    active_profiles: &[String],
    project: Option<&ProjectTrust>,
    filter: Option<AliasDisplayFilter>,
    descriptions: bool,
    term_width: Option<usize>,
) -> (r: String)
    ensures
        r@ == listing_text(
            global_aliases.pairs(),
            global_subcommands.pairs(),
            config.profiles@,
            views(active_profiles@),
            match project {
                Some(t) => Some(*t),
                None => None,
            },
            filter is Some,
            descriptions,
            term_width,
        ),
{
    let used_only = match filter {
        Some(AliasDisplayFilter::Used) => true,
        None => false,
    };
    let raw = build_items(global_aliases, global_subcommands, config, active_profiles, project, used_only);
    let items = if descriptions {
        raw
    } else {
        strip_items(&raw)
    };
    let target = compute_target_column(&items);
    render_all(&items, target, term_width)
}

/// The alias lines of a profile in the overview.
pub open spec fn profile_alias_lines(pairs: Seq<(Seq<char>, AliasSpec)>) -> Seq<Seq<char>>
    decreases pairs.len(),
{
    if pairs.len() == 0 {
        Seq::empty()
    } else {
        profile_alias_lines(pairs.drop_last()).push(
            "  "@ + pairs.last().0 + " \u{2192} "@ + pairs.last().1.command,
        )
    }
}

/// A profile's body in the overview: its aliases, or a placeholder.
pub open spec fn body_lines(p: Profile) -> Seq<Seq<char>> {
    if p.aliases.pairs().len() == 0 {
        seq!["  (no aliases)"@]
    } else {
        profile_alias_lines(p.aliases.pairs())
    }
}

/// The overview lines of the active profiles, each followed by a blank line.
pub open spec fn active_lines(ps: Seq<Profile>, list: Seq<(int, int)>) -> Seq<Seq<char>>
    decreases list.len(),
{
    if list.len() == 0 {
        Seq::empty()
    } else {
        let p = ps[list.last().0];
        active_lines(ps, list.drop_last()).push(
            "\u{25cf} "@ + p.name@ + " (active: "@ + decimal(list.last().1 as nat) + ")"@,
        ) + body_lines(p) + seq![Seq::<char>::empty()]
    }
}

/// The overview lines of the inactive profiles, blank lines between them.
pub open spec fn inactive_lines(qs: Seq<Profile>, n: int) -> Seq<Seq<char>>
    decreases qs.len(),
{
    if qs.len() == 0 {
        Seq::empty()
    } else {
        let i = qs.len() - 1;
        let p = qs.last();
        inactive_lines(qs.drop_last(), n).push("\u{25cb} "@ + p.name@) + body_lines(p) + (if i < n
            - 1 {
            seq![Seq::<char>::empty()]
        } else {
            Seq::empty()
        })
    }
}

/// The lines of the profile overview.
pub open spec fn overview_lines(ps: Seq<Profile>, active: Seq<Seq<char>>) -> Seq<Seq<char>> {
    let inactive = inactive_list(ps, active);
    active_lines(ps, active_list(ps, active, active.len() as int)) + inactive_lines(inactive, inactive.len() as int)
}

/// The whole profile overview.
pub open spec fn profiles_text(ps: Seq<Profile>, active: Seq<Seq<char>>) -> Seq<char> {
    join_spec(overview_lines(ps, active), "\n"@)
}

proof fn lemma_alias_lines_index(pairs: Seq<(Seq<char>, AliasSpec)>)
    ensures
        profile_alias_lines(pairs).len() == pairs.len(),
        forall|a: int|
            0 <= a < pairs.len() ==> #[trigger] profile_alias_lines(pairs)[a] == "  "@ + pairs[a].0 + " \u{2192} "@
                + pairs[a].1.command,
    decreases pairs.len(),
{
    if pairs.len() > 0 {
        lemma_alias_lines_index(pairs.drop_last());
        assert forall|a: int| 0 <= a < pairs.len() implies #[trigger] profile_alias_lines(pairs)[a] == "  "@
            + pairs[a].0 + " \u{2192} "@ + pairs[a].1.command by {
            if a < pairs.len() - 1 {
                assert(pairs.drop_last()[a] == pairs[a]);
            }
        }
    }
}

proof fn lemma_inactive_prefix(qs: Seq<Profile>, n: int, m: int)
    requires
        0 <= m <= qs.len(),
    ensures
        inactive_lines(qs.take(m), n).len() <= inactive_lines(qs, n).len(),
        forall|i: int|
            0 <= i < inactive_lines(qs.take(m), n).len() ==> #[trigger] inactive_lines(qs, n)[i] == inactive_lines(
                qs.take(m),
                n,
            )[i],
    decreases qs.len(),
{
    if m == qs.len() {
        assert(qs.take(m) =~= qs);
    } else {
        lemma_inactive_prefix(qs.drop_last(), n, m);
        assert(qs.drop_last().take(m) =~= qs.take(m));
    }
}

/// In the profile overview, every profile that is not active is listed
/// under a `○ name` line with exactly one `  name → command` line per alias,
/// in name order (or `  (no aliases)` when it has none), the block ending
/// with the overview or with a blank line. The overview is these lines
/// joined by newlines. The result is where its header line stands.
pub proof fn law_inactive_profile_lists_its_aliases(ps: Seq<Profile>, active: Seq<Seq<char>>, j: int) -> (h: int)
    requires
        0 <= j < ps.len(),
        !active.contains(ps[j].name@),
    ensures
        ({
            let l = overview_lines(ps, active);
            let p = ps[j];
            let pairs = p.aliases.pairs();
            let count = if pairs.len() == 0 {
                1
            } else {
                pairs.len() as int
            };
            &&& profiles_text(ps, active) == join_spec(l, "\n"@)
            &&& 0 <= h && h + 1 + count <= l.len()
            &&& l[h] == "\u{25cb} "@ + p.name@
            &&& pairs.len() == 0 ==> l[h + 1] == "  (no aliases)"@
            &&& forall|a: int|
                0 <= a < pairs.len() ==> #[trigger] l[h + 1 + a] == "  "@ + pairs[a].0 + " \u{2192} "@
                    + pairs[a].1.command
            &&& h + 1 + count == l.len() || l[h + 1 + count] == Seq::<char>::empty()
        }),
{
    let pred = |p: Profile| !active.contains(p.name@);
    let qs = inactive_list(ps, active);
    let n = qs.len() as int;
    let p = ps[j];
    ps.lemma_filter_contains(pred, j);
    assert(qs.contains(p));
    let q = choose|q: int| 0 <= q < qs.len() && qs[q] == p;
    let pairs = p.aliases.pairs();
    lemma_alias_lines_index(pairs);
    let al = active_lines(ps, active_list(ps, active, active.len() as int));
    let pre = inactive_lines(qs.take(q), n);
    let pl: int = pre.len() as int;
    let upto = inactive_lines(qs.take(q + 1), n);
    assert(qs.take(q + 1).drop_last() =~= qs.take(q));
    assert(qs.take(q + 1).last() == p);
    let blank = if q < n - 1 {
        seq![Seq::<char>::empty()]
    } else {
        Seq::<Seq<char>>::empty()
    };
    assert(upto == pre.push("\u{25cb} "@ + p.name@) + body_lines(p) + blank);
    lemma_inactive_prefix(qs, n, q + 1);
    let il = inactive_lines(qs, n);
    let l = overview_lines(ps, active);
    assert(l == al + il);
    let count = if pairs.len() == 0 {
        1
    } else {
        pairs.len() as int
    };
    assert(body_lines(p).len() == count);
    let h: int = al.len() as int + pl;
    assert(upto.len() == pl + 1 + count + blank.len());
    assert(l[h] == il[pl]);
    assert(il[pl] == upto[pl]);
    if pairs.len() == 0 {
        assert(l[h + 1] == upto[pl + 1]);
    }
    assert forall|a: int| 0 <= a < pairs.len() implies #[trigger] l[h + 1 + a] == "  "@ + pairs[a].0 + " \u{2192} "@
        + pairs[a].1.command by {
        assert(l[h + 1 + a] == il[pl + 1 + a]);
        assert(il[pl + 1 + a] == upto[pl + 1 + a]);
        assert(upto[pl + 1 + a] == body_lines(p)[a]);
    }
    if q < n - 1 {
        assert(l[h + 1 + count] == il[pl + 1 + count]);
        assert(il[pl + 1 + count] == upto[pl + 1 + count]);
    } else {
        assert(qs.take(q + 1) =~= qs);
    }
    h
}

fn push_body(lines: &mut Vec<String>, p: &Profile)
    ensures
        views(final(lines)@) == views(old(lines)@) + body_lines(*p),
{
    let entries = p.aliases.entries();
    let ghost pairs = p.aliases.pairs();
    let ghost start = views(lines@);
    if entries.len() == 0 {
        let l = string_from("  (no aliases)");
        lines.push(l);
        proof {
            assert(views(lines@) =~= start + seq![l@]);
        }
        return;
    }
    let mut i: usize = 0;
    proof {
        assert(start + profile_alias_lines(pairs.take(0)) =~= start);
    }
    while i < entries.len()
        invariant
            i <= entries@.len(),
            entries@.map_values(|q: (crate::alias::AliasName, crate::alias::TomlAlias)| (q.0@, q.1@)) == pairs,
            views(lines@) == start + profile_alias_lines(pairs.take(i as int)),
        decreases entries@.len() - i,
    {
        let mut l = string_from("  ");
        push_str(&mut l, entries[i].0.as_str());
        push_str(&mut l, " \u{2192} ");
        push_str(&mut l, entries[i].1.command());
        let ghost before = lines@;
        lines.push(l);
        proof {
            assert(views(lines@) =~= views(before).push(l@));
            assert(pairs.take(i + 1).drop_last() =~= pairs.take(i as int));
            assert(pairs.take(i + 1).last() == pairs[i as int]);
            assert(views(lines@) =~= start + profile_alias_lines(pairs.take(i + 1)));
        }
        i = i + 1;
    }
    proof {
        assert(pairs.take(entries@.len() as int) =~= pairs);
    }
}

/// The profile overview: active profiles in activation order with their
/// order, then the others, each with its aliases.
pub fn render_profiles(config: &ProfileConfig, active_profiles: &[String]) -> (r: String)
    ensures
        r@ == profiles_text(config.profiles@, views(active_profiles@)),
{
    let ghost ps = config.profiles@;
    let ghost names = views(active_profiles@);
    let list = active_pairs(config, active_profiles);
    let ghost lv = list@.map_values(|p: (usize, usize)| (p.0 as int, p.1 as int));
    let mut lines: Vec<String> = Vec::new();
    let mut i: usize = 0;
    proof {
        assert(lv.take(0) =~= Seq::<(int, int)>::empty());
        assert(views(lines@) =~= active_lines(ps, lv.take(0)));
    }
    while i < list.len()
        invariant
            i <= list@.len(),
            ps == config.profiles@,
            lv == list@.map_values(|p: (usize, usize)| (p.0 as int, p.1 as int)),
            forall|j: int| 0 <= j < list@.len() ==> (#[trigger] list@[j]).0 < ps.len(),
            views(lines@) == active_lines(ps, lv.take(i as int)),
        decreases list@.len() - i,
    {
        let p = &config.profiles[list[i].0];
        let mut h = string_from("\u{25cf} ");
        push_str(&mut h, p.name.as_str());
        push_str(&mut h, " (active: ");
        let d = decimal_string(list[i].1);
        push_str(&mut h, d.as_str());
        push_str(&mut h, ")");
        let ghost before = lines@;
        lines.push(h);
        proof {
            assert(views(lines@) =~= views(before).push(h@));
        }
        push_body(&mut lines, p);
        let blank = String::new();
        let ghost b2 = lines@;
        lines.push(blank);
        proof {
            assert(views(lines@) =~= views(b2) + seq![Seq::<char>::empty()]);
            assert(lv.take(i + 1).drop_last() =~= lv.take(i as int));
            assert(lv.take(i + 1).last() == (list@[i as int].0 as int, list@[i as int].1 as int));
            assert(views(lines@) =~= active_lines(ps, lv.take(i + 1)));
        }
        i = i + 1;
    }
    proof {
        assert(lv.take(list@.len() as int) =~= lv);
    }
    let inactive = inactive_profiles(config, active_profiles);
    let ghost qs = inactive@.map_values(|p: &Profile| *p);
    let n = inactive.len();
    let ghost mid = views(lines@);
    let mut k: usize = 0;
    proof {
        assert(qs.take(0) =~= Seq::<Profile>::empty());
        assert(mid + inactive_lines(qs.take(0), n as int) =~= mid);
    }
    while k < n
        invariant
            k <= n == inactive@.len(),
            qs == inactive@.map_values(|p: &Profile| *p),
            views(lines@) == mid + inactive_lines(qs.take(k as int), n as int),
        decreases n - k,
    {
        let p = inactive[k];
        let mut h = string_from("\u{25cb} ");
        push_str(&mut h, p.name.as_str());
        let ghost before = lines@;
        lines.push(h);
        proof {
            assert(views(lines@) =~= views(before).push(h@));
        }
        push_body(&mut lines, p);
        if k + 1 < n {
            let ghost b2 = lines@;
            let blank = String::new();
            lines.push(blank);
            proof {
                assert(views(lines@) =~= views(b2) + seq![Seq::<char>::empty()]);
            }
        }
        proof {
            assert(qs.take(k + 1).drop_last() =~= qs.take(k as int));
            assert(qs.take(k + 1).last() == *p);
            assert(views(lines@) =~= mid + inactive_lines(qs.take(k + 1), n as int));
        }
        k = k + 1;
    }
    proof {
        assert(qs.take(n as int) =~= qs);
    }
    join_strs(lines.as_slice(), "\n")
}

} // verus!

//! Walks from the cursor row back up the tree: the scope a row belongs
//! to, the subcommand program above it, and the short/long pairs from the
//! program down to the row.
use vstd::prelude::*;

use crate::described::{char_is_white_space, is_white_space, trim, trim_front, trim_spec};
use crate::text::{string_from, views};
use crate::tui::model::{pairs_view, AliasTarget, NodeKind, NodeSpec, TargetView, TuiModel};
use crate::tui::text_input::{byte_len, utf8_len};
use crate::tui::tree::nodes_view;

verus! {

/// The scope of the nearest scope header at or above row `i` (global
/// when there is none).
pub open spec fn scope_above(tree: Seq<NodeSpec>, i: int) -> TargetView
    decreases i + 1,
{
    if i < 0 || i >= tree.len() {
        TargetView::Global
    } else {
        match tree[i].kind {
            NodeKind::GlobalHeader => TargetView::Global,
            NodeKind::ProjectHeader => TargetView::Project,
            NodeKind::ProfileHeader => TargetView::Profile(tree[i].label),
            _ => scope_above(tree, i - 1),
        }
    }
}

/// The nearest subcommand program header at or above row `i`.
pub open spec fn program_row(tree: Seq<NodeSpec>, i: int) -> Option<int>
    decreases i + 1,
{
    if i < 0 || i >= tree.len() {
        None
    } else if tree[i].kind == NodeKind::SubcommandProgramHeader {
        Some(i)
    } else {
        program_row(tree, i - 1)
    }
}

/// Index of the first white space character in `s` (its length when
/// there is none).
pub open spec fn space_at(s: Seq<char>) -> int
    decreases s.len(),
{
    if s.len() == 0 {
        0
    } else if is_white_space(s[0]) {
        0
    } else {
        1 + space_at(s.drop_first())
    }
}

/// The first white-space separated word of `s` (empty when there is none).
pub open spec fn first_word(s: Seq<char>) -> Seq<char> {
    let t = trim_front(s);
    t.take(space_at(t))
}

/// The separator between the short and the long token of a subcommand row.
pub open spec fn arrow() -> Seq<char> {
    seq![' ', '\u{2192}', ' ']
}

/// Index of the first separator in `s` (its length when there is none).
pub open spec fn arrow_at(s: Seq<char>) -> int
    decreases s.len(),
{
    if s.len() < 3 {
        s.len() as int
    } else if s.take(3) == arrow() {
        0
    } else {
        1 + arrow_at(s.drop_first())
    }
}

/// The pair a row contributes: a subcommand row's short and long tokens
/// (the whole label as the short one when it has no separator), a group's
/// label, or nothing.
pub open spec fn row_pair(n: NodeSpec) -> (Seq<char>, Seq<char>) {
    match n.kind {
        NodeKind::SubcommandItem => {
            let i = arrow_at(n.label);
            if i < n.label.len() {
                (trim_spec(n.label.take(i)), trim_spec(n.label.skip(i + 3)))
            } else {
                (n.label, Seq::empty())
            }
        },
        NodeKind::SubcommandGroupNode => (n.label, Seq::empty()),
        _ => (Seq::empty(), Seq::empty()),
    }
}

/// The groups above row `i` (down to row `lo`) that enclose a row whose
/// connector prefix is `min` bytes long, outermost first.
pub open spec fn enclosing_groups(tree: Seq<NodeSpec>, lo: int, i: int, min: int) -> Seq<(Seq<char>, Seq<char>)>
    decreases i - lo + 1,
{
    if i < lo || i < 0 || i >= tree.len() {
        Seq::empty()
    } else if tree[i].kind == NodeKind::SubcommandGroupNode && byte_len(tree[i].prefix) < min {
        enclosing_groups(tree, lo, i - 1, byte_len(tree[i].prefix) as int).push((tree[i].label, Seq::empty()))
    } else {
        enclosing_groups(tree, lo, i - 1, min)
    }
}

/// The short/long pairs from the program above row `c` down to row `c`.
pub open spec fn pairs_to(tree: Seq<NodeSpec>, c: int) -> Seq<(Seq<char>, Seq<char>)> {
    match program_row(tree, c) {
        None => seq![(Seq::<char>::empty(), Seq::<char>::empty())],
        Some(h) => enclosing_groups(tree, h + 1, c - 1, byte_len(tree[c].prefix) as int).push(row_pair(tree[c])),
    }
}

proof fn lemma_program_row_bounds(tree: Seq<NodeSpec>, i: int)
    ensures
        program_row(tree, i) matches Some(h) ==> 0 <= h <= i && h < tree.len(),
    decreases i + 1,
{
    if 0 <= i < tree.len() && tree[i].kind != NodeKind::SubcommandProgramHeader {
        lemma_program_row_bounds(tree, i - 1);
    }
}

/// The scope of the nearest scope header at or above the cursor.
pub fn resolve_scope_from_ancestors(model: &TuiModel) -> (r: Option<AliasTarget>)
    requires
        model.cursor < model.tree@.len(),
    ensures
        r matches Some(t) && t@ == scope_above(nodes_view(model.tree@), model.cursor as int),
{
    let ghost t = nodes_view(model.tree@);
    let _len = model.tree.len();
    let mut i: usize = model.cursor + 1;
    while i > 0
        invariant
            i <= model.cursor + 1,
            model.cursor < model.tree@.len(),
            t == nodes_view(model.tree@),
            scope_above(t, model.cursor as int) == scope_above(t, i - 1),
        decreases i,
    {
        let n = &model.tree[i - 1];
        assert(t[i - 1] == n@);
        match n.kind {
            NodeKind::GlobalHeader => {
                return Some(AliasTarget::Global);
            },
            NodeKind::ProjectHeader => {
                return Some(AliasTarget::Project);
            },
            NodeKind::ProfileHeader => {
                return Some(AliasTarget::Profile(n.label.clone()));
            },
            _ => {},
        }
        i = i - 1;
    }
    Some(AliasTarget::Global)
}

/// The nearest subcommand program header at or above the cursor.
fn program_row_exec(model: &TuiModel) -> (r: Option<usize>)
    requires
        model.cursor < model.tree@.len(),
    ensures
        match program_row(nodes_view(model.tree@), model.cursor as int) {
            Some(h) => r == Some(h as usize),
            None => r is None,
        },
{
    let ghost t = nodes_view(model.tree@);
    let _len = model.tree.len();
    let mut i: usize = model.cursor + 1;
    while i > 0
        invariant
            i <= model.cursor + 1,
            model.cursor < model.tree@.len(),
            t == nodes_view(model.tree@),
            program_row(t, model.cursor as int) == program_row(t, i - 1),
        decreases i,
    {
        assert(t[i - 1] == model.tree@[i - 1]@);
        if model.tree[i - 1].kind == NodeKind::SubcommandProgramHeader {
            return Some(i - 1);
        }
        i = i - 1;
    }
    None
}

/// The first white-space separated word of `s`.
pub fn first_word_of(s: &str) -> (r: String)
    ensures
        r@ == first_word(s@),
{
    let n = s.unicode_len();
    let mut lo: usize = 0;
    assert(s@.subrange(0, n as int) =~= s@);
    while lo < n && char_is_white_space(s.get_char(lo))
        invariant
            n == s@.len(),
            lo <= n,
            trim_front(s@) == trim_front(s@.subrange(lo as int, n as int)),
        decreases n - lo,
    {
        assert(s@.subrange(lo as int, n as int).drop_first() =~= s@.subrange(lo + 1, n as int));
        lo = lo + 1;
    }
    let ghost t = s@.subrange(lo as int, n as int);
    assert(trim_front(t) == t);
    let mut hi: usize = lo;
    assert(t.subrange(0, t.len() as int) =~= t);
    while hi < n && !char_is_white_space(s.get_char(hi))
        invariant
            n == s@.len(),
            lo <= hi <= n,
            t == s@.subrange(lo as int, n as int),
            space_at(t) == (hi - lo) + space_at(s@.subrange(hi as int, n as int)),
        decreases n - hi,
    {
        assert(s@.subrange(hi as int, n as int).drop_first() =~= s@.subrange(hi + 1, n as int));
        hi = hi + 1;
    }
    assert(t.take(space_at(t)) =~= s@.subrange(lo as int, hi as int));
    string_from(s.substring_char(lo, hi))
}

/// Index of the first separator in `s`.
fn arrow_index(s: &str) -> (r: usize)
    ensures
        r == arrow_at(s@),
        r <= s@.len(),
        r < s@.len() ==> r + 3 <= s@.len() && s@.subrange(r as int, r + 3) == arrow(),
{
    let n = s.unicode_len();
    let mut i: usize = 0;
    assert(s@.subrange(0, n as int) =~= s@);
    while i < n && n - i >= 3
        invariant
            n == s@.len(),
            i <= n,
            arrow_at(s@) == i + arrow_at(s@.subrange(i as int, n as int)),
        decreases n - i,
    {
        if s.get_char(i) == ' ' && s.get_char(i + 1) == '\u{2192}' && s.get_char(i + 2) == ' ' {
            proof {
                assert(s@.subrange(i as int, n as int).take(3) =~= arrow());
                assert(s@.subrange(i as int, i + 3) =~= arrow());
            }
            return i;
        }
        proof {
            assert(!(s@.subrange(i as int, n as int).take(3) =~= arrow())) by {
                if s@.subrange(i as int, n as int).take(3) =~= arrow() {
                    assert(s@[i as int] == ' ');
                    assert(s@[i + 1] == '\u{2192}');
                    assert(s@[i + 2] == ' ');
                }
            }
            assert(s@.subrange(i as int, n as int).drop_first() =~= s@.subrange(i + 1, n as int));
        }
        i = i + 1;
    }
    n
}

/// The pair a row contributes.
fn row_pair_exec(label: &str, kind: NodeKind) -> (r: (String, String))
    ensures
        (r.0@, r.1@) == row_pair(
            NodeSpec {
                kind,
                label: label@,
                alias_id: None,
                alias_command: None,
                is_active: false,
                prefix: Seq::empty(),
                content_prefix: Seq::empty(),
                project_trust: None,
            },
        ),
{
    match kind {
        NodeKind::SubcommandItem => {
            let i = arrow_index(label);
            let n = label.unicode_len();
            if i < n {
                let a = crate::text::prefix_to(label, i);
                let b = crate::text::suffix_from(label, i + 3);
                proof {
                    assert(label@.skip(i + 3) =~= label@.subrange(i + 3, n as int));
                }
                (trim(a.as_str()), trim(b.as_str()))
            } else {
                (string_from(label), String::new())
            }
        },
        NodeKind::SubcommandGroupNode => (string_from(label), String::new()),
        _ => (String::new(), String::new()),
    }
}

/// The short/long pairs from the subcommand program above the cursor down
/// to the cursor row (one empty pair when there is no program above).
pub fn collect_pairs_to_cursor(model: &TuiModel) -> (r: Vec<(String, String)>)
    requires
        model.cursor < model.tree@.len(),
    ensures
        pairs_view(r@) == pairs_to(nodes_view(model.tree@), model.cursor as int),
{
    let ghost t = nodes_view(model.tree@);
    let start = match program_row_exec(model) {
        None => {
            let r = vec![(String::new(), String::new())];
            assert(pairs_view(r@) =~= seq![(Seq::<char>::empty(), Seq::<char>::empty())]);
            return r;
        },
        Some(h) => h,
    };
    let c = model.cursor;
    let _len = model.tree.len();
    let cp = row_pair_exec(model.tree[c].label.as_str(), model.tree[c].kind);
    assert(t[c as int] == model.tree@[c as int]@);
    let mut min = utf8_len(model.tree[c].prefix.as_str());
    let mut rev: Vec<(String, String)> = Vec::new();
    let mut i: usize = c;
    proof {
        lemma_program_row_bounds(t, c as int);
    }
    while i > start && i - start > 1
        invariant
            start <= i <= c,
            c == model.cursor,
            start < model.tree@.len(),
            c < model.tree@.len(),
            t == nodes_view(model.tree@),
            enclosing_groups(t, start + 1, c - 1, byte_len(t[c as int].prefix) as int) == enclosing_groups(
                t,
                start + 1,
                i - 1,
                min as int,
            ) + pairs_view(rev@).reverse(),
        decreases i,
    {
        let j = i - 1;
        assert(t[j as int] == model.tree@[j as int]@);
        let plen = utf8_len(model.tree[j].prefix.as_str());
        if model.tree[j].kind == NodeKind::SubcommandGroupNode && plen < min {
            let ghost before = pairs_view(rev@);
            let x = (model.tree[j].label.clone(), String::new());
            rev.push(x);
            proof {
                assert(pairs_view(rev@) =~= before.push((x.0@, x.1@)));
                assert(pairs_view(rev@).reverse() =~= seq![(x.0@, x.1@)] + before.reverse());
            }
            min = plen;
        }
        i = i - 1;
    }
    let ghost rv = pairs_view(rev@);
    let mut out: Vec<(String, String)> = Vec::new();
    let mut k: usize = rev.len();
    while k > 0
        invariant
            k <= rev@.len(),
            rv == pairs_view(rev@),
            pairs_view(out@) == rv.reverse().take(rv.len() - k),
        decreases k,
    {
        let ghost before = pairs_view(out@);
        out.push((rev[k - 1].0.clone(), rev[k - 1].1.clone()));
        proof {
            assert(pairs_view(out@) =~= before.push(rv[k - 1]));
            assert(rv.reverse().take(rv.len() - k + 1) =~= rv.reverse().take(rv.len() - k).push(rv.reverse()[rv.len() - k]));
        }
        k = k - 1;
    }
    let ghost before = pairs_view(out@);
    out.push(cp);
    proof {
        assert(rv.reverse().take(rv.len() as int) =~= rv.reverse());
        assert(pairs_view(out@) =~= before.push((cp.0@, cp.1@)));
    }
    out
}

/// The labels of the subcommand groups that directly follow row `i - 1`,
/// up to row `c`, stopping at the first row that is not a group.
pub open spec fn consecutive_groups(tree: Seq<NodeSpec>, i: int, c: int) -> Seq<Seq<char>>
    decreases c - i + 1,
{
    if i > c || i < 0 || i >= tree.len() {
        Seq::empty()
    } else if tree[i].kind == NodeKind::SubcommandGroupNode {
        seq![tree[i].label] + consecutive_groups(tree, i + 1, c)
    } else {
        Seq::empty()
    }
}

/// The key prefix of the subcommand group at the cursor: the program and
/// the groups that follow its header, joined by `:` (empty without a
/// program above).
pub open spec fn key_prefix_at(tree: Seq<NodeSpec>, c: int) -> Seq<char> {
    match program_row(tree, c) {
        None => Seq::empty(),
        Some(h) => crate::text::join_spec(seq![first_word(tree[h].label)] + consecutive_groups(tree, h + 1, c), ":"@),
    }
}

/// The key prefix of the subcommand group at the cursor.
pub fn derive_key_prefix_from_cursor(model: &TuiModel) -> (r: String)
    requires
        model.cursor < model.tree@.len(),
    ensures
        r@ == key_prefix_at(nodes_view(model.tree@), model.cursor as int),
{
    let ghost t = nodes_view(model.tree@);
    proof {
        lemma_program_row_bounds(t, model.cursor as int);
    }
    let start = match program_row_exec(model) {
        None => {
            return String::new();
        },
        Some(h) => h,
    };
    let c = model.cursor;
    let n = model.tree.len();
    let mut segments: Vec<String> = vec![first_word_of(model.tree[start].label.as_str())];
    assert(t[start as int] == model.tree@[start as int]@);
    let mut i: usize = start + 1;
    proof {
        assert(views(segments@) =~= seq![first_word(t[start as int].label)]);
    }
    while i <= c && model.tree[i].kind == NodeKind::SubcommandGroupNode
        invariant
            start < i <= c + 1,
            c == model.cursor,
            n == model.tree@.len(),
            c < n,
            t == nodes_view(model.tree@),
            views(segments@) + consecutive_groups(t, i as int, c as int) == seq![first_word(t[start as int].label)]
                + consecutive_groups(t, start + 1, c as int),
        decreases c + 1 - i,
    {
        assert(t[i as int] == model.tree@[i as int]@);
        let ghost before = views(segments@);
        segments.push(model.tree[i].label.clone());
        proof {
            assert(views(segments@) =~= before.push(t[i as int].label));
            assert(views(segments@) + consecutive_groups(t, i + 1, c as int) =~= before + (seq![t[i as int].label]
                + consecutive_groups(t, i + 1, c as int)));
        }
        i = i + 1;
    }
    proof {
        if i <= c {
            assert(t[i as int] == model.tree@[i as int]@);
        }
        assert(views(segments@) + consecutive_groups(t, i as int, c as int) =~= views(segments@));
    }
    crate::text::join_strs(segments.as_slice(), ":")
}

/// Index of the first short/long separator in a label (its length when
/// there is none).
pub fn arrow_index_pub(s: &str) -> (r: usize)
    ensures
        r == arrow_at(s@),
        r <= s@.len(),
        r < s@.len() ==> r + 3 <= s@.len(),
{
    arrow_index(s)
}

} // verus!

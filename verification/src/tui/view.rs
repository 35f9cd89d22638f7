//! What the interface shows, as plain text pieces with a tint: the tree
//! rows, the destination column, the text form, the confirmation and the
//! help bar. The terminal front end maps tints to colours.
use vstd::prelude::*;

use crate::display::{first_index, lemma_first_index_prefix};
use crate::text::{contains_char, decimal, decimal_string, push_str, str_equal, string_from, views};
use crate::tui::transfer::DestSpec;
use crate::alias_id::{AliasId, IdSpec};
use crate::tui::model::{
    ids_view, pairs_view, AliasField, AliasTarget, Column, ConfirmAction, ConfirmSpec, FormSpec, MoveDestination, Mode, ModeSpec, NodeKind, NodeSpec, SubcommandField, TargetView, TextInputState, TransferMode, TreeNode, TuiModel, ICON_ACTIVE, ICON_GLOBAL, ICON_INACTIVE, ICON_PROJECT,
    ICON_SUBCOMMAND, MARKER_CURSOR, MARKER_NONE, MARKER_SELECTED, TREE_BRANCH, TREE_LAST,
};
use crate::alias::AliasSpec;
use crate::profile::Profile;
use crate::tui::transfer::AliasStores;
use crate::tui::tree::{
    active_blocks, active_names, alias_node, global_alias_nodes, header_node, inactive_blocks, inactive_names,
    nodes_view, profile_alias_nodes, profile_pairs, project_block, shows_project,
};
use crate::tui::model::{
    ends_section, kinds, lines_of, starts_section, tree_of, TREE_SPACE, TREE_TRUNK,
};
use crate::tui::update::rows::arrow_at;
use crate::tui::update::selection::sel_contains;
use crate::tui::tree::ProjectTrustState;
use crate::tui::text_input::{byte_len, char_index, index_at, is_boundary, utf8_len};
use crate::tui::update::text_input::{field_text, form_ok, pair_text};

verus! {

/// The colour roles of the interface.
#[derive(Debug, Clone, Copy, PartialEq, Eq, Structural)]
pub enum Tint {
    Plain,
    TextPrimary,
    TextMuted,
    Gold,
    HeaderDefault,
    TreeConnector,
    TreeConnectorActive,
    SelectedAccent,
    SelectedAccentMuted,
    SelectedText,
    ErrorRed,
    TrustWarn,
    TrustTampered,
    Subcommand,
}

/// A piece of text with its colour role, bold or not.
#[derive(Debug, Clone)]
pub struct Piece {
    pub text: String,
    pub tint: Tint,
    pub bold: bool,
}

/// What a piece shows.
pub struct PieceSpec {
    pub text: Seq<char>,
    pub tint: Tint,
    pub bold: bool,
}

impl View for Piece {
    type V = PieceSpec;

    open spec fn view(&self) -> PieceSpec {
        PieceSpec { text: self.text@, tint: self.tint, bold: self.bold }
    }
}

/// A piece, as a value.
pub open spec fn piece(text: Seq<char>, tint: Tint, bold: bool) -> PieceSpec {
    PieceSpec { text, tint, bold }
}

/// The pieces of a line.
pub open spec fn line_view(l: Seq<Piece>) -> Seq<PieceSpec> {
    l.map_values(|p: Piece| p@)
}

/// The pieces of each line.
pub open spec fn lines_view(ls: Seq<Vec<Piece>>) -> Seq<Seq<PieceSpec>> {
    ls.map_values(|l: Vec<Piece>| line_view(l@))
}

fn mk(text: String, tint: Tint, bold: bool) -> (r: Piece)
    ensures
        r@ == piece(text@, tint, bold),
{
    Piece { text, tint, bold }
}

fn push_piece(line: &mut Vec<Piece>, p: Piece)
    ensures
        line_view(final(line)@) == line_view(old(line)@).push(p@),
{
    let ghost before = line_view(line@);
    line.push(p);
    assert(line_view(line@) =~= before.push(p@));
}

/// The 1-based position of `name` among the active profiles.
pub open spec fn activation(active: Seq<Seq<char>>, name: Seq<char>) -> Option<int> {
    if first_index(active, name) >= 0 {
        Some(first_index(active, name) + 1)
    } else {
        None
    }
}

/// The 1-based position of `name` among the active profiles, if active.
pub fn activation_order(active: &[String], name: &str) -> (r: Option<usize>)
    ensures
        match r {
            Some(k) => activation(views(active@), name@) == Some(k as int),
            None => activation(views(active@), name@) is None,
        },
{
    let mut i: usize = 0;
    while i < active.len()
        invariant
            i <= active@.len(),
            first_index(views(active@.take(i as int)), name@) == -1,
        decreases active@.len() - i,
    {
        proof {
            assert(views(active@.take(i + 1)).drop_last() =~= views(active@.take(i as int)));
        }
        if str_equal(active[i].as_str(), name) {
            proof {
                lemma_first_index_prefix(views(active@), i + 1, name@);
                assert(views(active@.take(i + 1)) =~= views(active@).take(i + 1));
            }
            return Some(i + 1);
        }
        i = i + 1;
    }
    proof {
        assert(active@.take(active@.len() as int) =~= active@);
    }
    None
}

/// Is the row a scope header (global, project or profile)?
pub open spec fn scope_header(k: NodeKind) -> bool {
    k == NodeKind::GlobalHeader || k == NodeKind::ProjectHeader || k == NodeKind::ProfileHeader
}

/// The icon and the label of a scope header; an active profile carries
/// its position.
pub open spec fn header_text(n: NodeSpec, order: Option<int>) -> (Seq<char>, Seq<char>) {
    match n.kind {
        NodeKind::GlobalHeader => (ICON_GLOBAL@, "global"@),
        NodeKind::ProjectHeader => (ICON_PROJECT@, n.label),
        _ => (
            (if n.is_active {
                ICON_ACTIVE@
            } else {
                ICON_INACTIVE@
            }) + " "@,
            n.label + match order {
                Some(k) => " (active: "@ + decimal(k as nat) + ")"@,
                None => Seq::empty(),
            },
        ),
    }
}

/// The icon and the label of a scope header.
pub fn header_content(node: &TreeNode, activation_order: Option<usize>) -> (r: (String, String))
    requires
        scope_header(node.kind),
    ensures
        (r.0@, r.1@) == header_text(node@, match activation_order {
            Some(k) => Some(k as int),
            None => None,
        }),
{
    match node.kind {
        NodeKind::GlobalHeader => (string_from(ICON_GLOBAL), string_from("global")),
        NodeKind::ProjectHeader => (string_from(ICON_PROJECT), node.label.clone()),
        _ => {
            let mut icon = if node.is_active {
                string_from(ICON_ACTIVE)
            } else {
                string_from(ICON_INACTIVE)
            };
            push_str(&mut icon, " ");
            let mut label = node.label.clone();
            if let Some(k) = activation_order {
                push_str(&mut label, " (active: ");
                let d = decimal_string(k);
                push_str(&mut label, d.as_str());
                push_str(&mut label, ")");
                proof {
                    assert(label@ =~= node.label@ + (" (active: "@ + decimal(k as nat) + ")"@));
                }
            } else {
                assert(label@ =~= node.label@ + Seq::<char>::empty());
            }
            (icon, label)
        },
    }
}

/// The tints of a scope header's label and icon: gold under the cursor, a
/// warning for a project not trusted, gold for an active profile.
pub open spec fn header_tints(n: NodeSpec, is_cursor: bool) -> (Tint, Tint) {
    if is_cursor {
        (Tint::Gold, Tint::Gold)
    } else if n.project_trust == Some(ProjectTrustState::Unknown) || n.project_trust == Some(
        ProjectTrustState::Untrusted,
    ) {
        (Tint::TrustWarn, Tint::TrustWarn)
    } else if n.project_trust == Some(ProjectTrustState::Tampered) {
        (Tint::TrustTampered, Tint::TrustTampered)
    } else {
        let highlight = n.kind == NodeKind::ProfileHeader && n.is_active;
        let label = if highlight {
            Tint::Gold
        } else {
            Tint::HeaderDefault
        };
        (label, if n.kind == NodeKind::ProfileHeader && !highlight {
            Tint::TextMuted
        } else {
            label
        })
    }
}

/// The tints of a scope header's label and icon.
pub fn header_colors(node: &TreeNode, is_cursor: bool) -> (r: (Tint, Tint))
    ensures
        r == header_tints(node@, is_cursor),
{
    if is_cursor {
        return (Tint::Gold, Tint::Gold);
    }
    match node.project_trust {
        Some(ProjectTrustState::Unknown) | Some(ProjectTrustState::Untrusted) => {
            return (Tint::TrustWarn, Tint::TrustWarn);
        },
        Some(ProjectTrustState::Tampered) => {
            return (Tint::TrustTampered, Tint::TrustTampered);
        },
        _ => {},
    }
    let highlight = node.kind == NodeKind::ProfileHeader && node.is_active;
    let label = if highlight {
        Tint::Gold
    } else {
        Tint::HeaderDefault
    };
    let icon = if node.kind == NodeKind::ProfileHeader && !highlight {
        Tint::TextMuted
    } else {
        label
    };
    (label, icon)
}

/// The cursor marker, the selection marker, or blank.
pub open spec fn marker(is_cursor: bool, is_selected: bool) -> Seq<char> {
    if is_cursor {
        MARKER_CURSOR@
    } else if is_selected {
        MARKER_SELECTED@
    } else {
        MARKER_NONE@
    }
}

/// Is the row after `i` a scope header?
pub open spec fn next_is_scope(tree: Seq<NodeSpec>, i: int) -> bool {
    i + 1 < tree.len() && scope_header(tree[i + 1].kind)
}

/// Is row `i` the last of a run of alias rows?
pub open spec fn last_alias(tree: Seq<NodeSpec>, i: int) -> bool {
    !(i + 1 < tree.len() && (tree[i + 1].kind == NodeKind::AliasItem || tree[i + 1].kind
        == NodeKind::SubcommandProgramHeader))
}

/// A connector prefix with everything but the vertical bars blanked.
pub open spec fn bars_only(s: Seq<char>) -> Seq<char> {
    s.map_values(|c: char| if c == '\u{2502}' {
        c
    } else {
        ' '
    })
}

/// The line of a scope header: connector and cursor marker, icon, and the
/// label in bold.
pub open spec fn header_line(n: NodeSpec, is_cursor: bool, order: Option<int>) -> Seq<PieceSpec> {
    let (icon, label) = header_text(n, order);
    let (lt, it) = header_tints(n, is_cursor);
    seq![
        piece(n.prefix + marker(is_cursor, false), if is_cursor {
            Tint::TreeConnectorActive
        } else {
            Tint::TreeConnector
        }, false),
        piece(icon, it, false),
        piece(label, lt, true),
    ]
}

/// The lines a tree row renders to: headers with icon and label (and a
/// blank connector line after an empty profile), subcommand rows, and
/// alias rows with their command (and a blank connector line closing a
/// section).
pub open spec fn row_lines(tree: Seq<NodeSpec>, i: int, is_cursor: bool, is_selected: bool, order: Option<int>) -> Seq<
    Seq<PieceSpec>,
> {
    let n = tree[i];
    let mk = marker(is_cursor, is_selected);
    match n.kind {
        NodeKind::GlobalHeader | NodeKind::ProjectHeader | NodeKind::ProfileHeader => {
            let first = header_line(n, is_cursor, order);
            if n.kind == NodeKind::ProfileHeader && next_is_scope(tree, i) {
                seq![first, seq![piece(n.content_prefix, Tint::TreeConnector, false)]]
            } else {
                seq![first]
            }
        },
        NodeKind::SubcommandProgramHeader => {
            let lt = if is_cursor {
                Tint::Gold
            } else {
                Tint::Subcommand
            };
            seq![
                seq![
                    piece(n.prefix + marker(is_cursor, false), if is_cursor {
                        Tint::TreeConnectorActive
                    } else {
                        Tint::Subcommand
                    }, false),
                    piece(ICON_SUBCOMMAND@ + " "@, lt, false),
                    piece(n.label, lt, true),
                ],
            ]
        },
        NodeKind::SubcommandGroupNode => {
            let conn = if is_cursor {
                Tint::TreeConnectorActive
            } else {
                Tint::Subcommand
            };
            seq![
                seq![
                    piece(n.prefix, conn, false),
                    piece(mk, if is_selected {
                        Tint::SelectedAccent
                    } else {
                        conn
                    }, false),
                    piece(n.label, if is_cursor {
                        Tint::Gold
                    } else if is_selected {
                        Tint::SelectedText
                    } else {
                        Tint::Subcommand
                    }, false),
                ],
            ]
        },
        NodeKind::SubcommandItem => {
            let conn = if is_cursor {
                Tint::TreeConnectorActive
            } else if is_selected {
                Tint::SelectedAccentMuted
            } else {
                Tint::Subcommand
            };
            let key_tint = if is_cursor {
                Tint::Gold
            } else if is_selected {
                Tint::SelectedText
            } else {
                Tint::Subcommand
            };
            let exp_tint = if is_cursor {
                Tint::HeaderDefault
            } else if is_selected {
                Tint::SelectedAccentMuted
            } else {
                Tint::TextMuted
            };
            let a = arrow_at(n.label);
            let tail = if a < n.label.len() {
                seq![
                    piece(n.label.take(a), key_tint, false),
                    piece(" \u{2192} "@, Tint::TextMuted, false),
                    piece(n.label.skip(a + 3), exp_tint, false),
                ]
            } else {
                seq![
                    piece(n.label, key_tint, false),
                    piece(Seq::empty(), Tint::Plain, false),
                    piece(Seq::empty(), Tint::Plain, false),
                ]
            };
            let first = seq![piece(n.prefix, conn, false), piece(mk, if is_selected {
                Tint::SelectedAccent
            } else {
                conn
            }, false)] + tail;
            if next_is_scope(tree, i) {
                seq![first, seq![piece(bars_only(n.prefix), Tint::TreeConnector, false)]]
            } else {
                seq![first]
            }
        },
        NodeKind::AliasItem => {
            let last = last_alias(tree, i);
            let conn = if is_cursor {
                Tint::TreeConnectorActive
            } else if is_selected {
                Tint::SelectedAccentMuted
            } else {
                Tint::TreeConnector
            };
            let first = seq![
                piece(n.content_prefix + if last {
                    TREE_LAST@
                } else {
                    TREE_BRANCH@
                }, conn, false),
                piece(mk, if is_selected {
                    Tint::SelectedAccent
                } else {
                    conn
                }, false),
                piece(n.label, if is_cursor {
                    Tint::Gold
                } else if is_selected {
                    Tint::SelectedText
                } else {
                    Tint::TextPrimary
                }, is_cursor || is_selected),
                piece(" -> "@, Tint::TextMuted, false),
                piece(match n.alias_command {
                    Some(c) => c,
                    None => Seq::empty(),
                }, if is_cursor {
                    Tint::HeaderDefault
                } else if is_selected {
                    Tint::SelectedAccentMuted
                } else {
                    Tint::TextMuted
                }, false),
            ];
            if last && i + 1 < tree.len() && (scope_header(tree[i + 1].kind) || tree[i + 1].kind
                == NodeKind::SubcommandProgramHeader) {
                seq![first, seq![piece(n.content_prefix, Tint::TreeConnector, false)]]
            } else {
                seq![first]
            }
        },
    }
}

/// Is the row's alias selected?
pub open spec fn row_selected(sel: Seq<IdSpec>, n: NodeSpec) -> bool {
    n.alias_id matches Some(id) && sel.contains(id)
}

/// The lines of the first `k` rows of the alias tree.
pub open spec fn tree_lines_upto(m: TuiModel, k: int) -> Seq<Seq<PieceSpec>>
    decreases k,
{
    if k <= 0 {
        Seq::empty()
    } else {
        let t = nodes_view(m.tree@);
        let i = k - 1;
        tree_lines_upto(m, i) + row_lines(
            t,
            i,
            i == m.cursor && m.active_column == Column::Left,
            row_selected(ids_view(m.selected@), t[i]),
            activation(m.active_view(), t[i].label),
        )
    }
}

/// The lines of the alias tree.
pub open spec fn tree_lines(m: TuiModel) -> Seq<Seq<PieceSpec>> {
    tree_lines_upto(m, m.tree@.len() as int)
}

fn text(s: &str) -> (r: String)
    ensures
        r@ == s@,
{
    string_from(s)
}

fn concat(a: &str, b: &str) -> (r: String)
    ensures
        r@ == a@ + b@,
{
    let mut s = string_from(a);
    push_str(&mut s, b);
    s
}

fn bars_only_exec(s: &str) -> (r: String)
    ensures
        r@ == bars_only(s@),
{
    let n = s.unicode_len();
    let mut out = String::new();
    let mut i: usize = 0;
    while i < n
        invariant
            n == s@.len(),
            i <= n,
            out@ == bars_only(s@.take(i as int)),
        decreases n - i,
    {
        let c = s.get_char(i);
        crate::text::push_char(&mut out, if c == '\u{2502}' {
            c
        } else {
            ' '
        });
        proof {
            assert(bars_only(s@.take(i + 1)) =~= bars_only(s@.take(i as int)).push(if c == '\u{2502}' {
                c
            } else {
                ' '
            }));
        }
        i = i + 1;
    }
    proof {
        assert(s@.take(n as int) =~= s@);
    }
    out
}

fn marker_exec(is_cursor: bool, is_selected: bool) -> (r: String)
    ensures
        r@ == marker(is_cursor, is_selected),
{
    if is_cursor {
        text(MARKER_CURSOR)
    } else if is_selected {
        text(MARKER_SELECTED)
    } else {
        text(MARKER_NONE)
    }
}

fn one_line(l: Vec<Piece>) -> (r: Vec<Vec<Piece>>)
    ensures
        lines_view(r@) == seq![line_view(l@)],
{
    let r = vec![l];
    assert(lines_view(r@) =~= seq![line_view(r@[0]@)]);
    r
}

fn two_lines(a: Vec<Piece>, b: Vec<Piece>) -> (r: Vec<Vec<Piece>>)
    ensures
        lines_view(r@) == seq![line_view(a@), line_view(b@)],
{
    let r = vec![a, b];
    assert(lines_view(r@) =~= seq![line_view(r@[0]@), line_view(r@[1]@)]);
    r
}

fn pieces3(a: Piece, b: Piece, c: Piece) -> (r: Vec<Piece>)
    ensures
        line_view(r@) == seq![a@, b@, c@],
{
    let r = vec![a, b, c];
    assert(line_view(r@) =~= seq![r@[0]@, r@[1]@, r@[2]@]);
    r
}

/// The line of a scope header.
fn header_line_exec(n: &TreeNode, is_cursor: bool, order: Option<usize>) -> (r: Vec<Piece>)
    requires
        scope_header(n.kind),
    ensures
        line_view(r@) == header_line(n@, is_cursor, match order {
            Some(k) => Some(k as int),
            None => None,
        }),
{
    let (icon, label) = header_content(n, order);
    let (lt, it) = header_colors(n, is_cursor);
    let conn = if is_cursor {
        Tint::TreeConnectorActive
    } else {
        Tint::TreeConnector
    };
    let lead = concat(n.prefix.as_str(), marker_exec(is_cursor, false).as_str());
    pieces3(mk(lead, conn, false), mk(icon, it, false), mk(label, lt, true))
}

/// The lines tree row `i` renders to.
pub fn row_lines_exec(tree: &[TreeNode], i: usize, is_cursor: bool, is_selected: bool, order: Option<usize>) -> (r: Vec<
    Vec<Piece>,
>)
    requires
        i < tree@.len(),
    ensures
        lines_view(r@) == row_lines(nodes_view(tree@), i as int, is_cursor, is_selected, match order {
            Some(k) => Some(k as int),
            None => None,
        }),
{
    let ghost t = nodes_view(tree@);
    let n = &tree[i];
    assert(t[i as int] == n@);
    let next_scope = i + 1 < tree.len() && match tree[i + 1].kind {
        NodeKind::GlobalHeader | NodeKind::ProjectHeader | NodeKind::ProfileHeader => true,
        _ => false,
    };
    proof {
        if i + 1 < tree@.len() {
            assert(t[i + 1] == tree@[i + 1]@);
        }
    }
    match n.kind {
        NodeKind::GlobalHeader | NodeKind::ProjectHeader | NodeKind::ProfileHeader => {
            let first = header_line_exec(n, is_cursor, order);
            if n.kind == NodeKind::ProfileHeader && next_scope {
                let second = vec![mk(n.content_prefix.clone(), Tint::TreeConnector, false)];
                assert(line_view(second@) =~= seq![second@[0]@]);
                two_lines(first, second)
            } else {
                one_line(first)
            }
        },
        NodeKind::SubcommandProgramHeader => {
            let lt = if is_cursor {
                Tint::Gold
            } else {
                Tint::Subcommand
            };
            let conn = if is_cursor {
                Tint::TreeConnectorActive
            } else {
                Tint::Subcommand
            };
            let lead = concat(n.prefix.as_str(), marker_exec(is_cursor, false).as_str());
            one_line(
                pieces3(mk(lead, conn, false), mk(concat(ICON_SUBCOMMAND, " "), lt, false), mk(n.label.clone(), lt, true)),
            )
        },
        NodeKind::SubcommandGroupNode => {
            let conn = if is_cursor {
                Tint::TreeConnectorActive
            } else {
                Tint::Subcommand
            };
            let mt = if is_selected {
                Tint::SelectedAccent
            } else {
                conn
            };
            let lt = if is_cursor {
                Tint::Gold
            } else if is_selected {
                Tint::SelectedText
            } else {
                Tint::Subcommand
            };
            one_line(
                pieces3(
                    mk(n.prefix.clone(), conn, false),
                    mk(marker_exec(is_cursor, is_selected), mt, false),
                    mk(n.label.clone(), lt, false),
                ),
            )
        },
        NodeKind::SubcommandItem => {
            let conn = if is_cursor {
                Tint::TreeConnectorActive
            } else if is_selected {
                Tint::SelectedAccentMuted
            } else {
                Tint::Subcommand
            };
            let key_tint = if is_cursor {
                Tint::Gold
            } else if is_selected {
                Tint::SelectedText
            } else {
                Tint::Subcommand
            };
            let exp_tint = if is_cursor {
                Tint::HeaderDefault
            } else if is_selected {
                Tint::SelectedAccentMuted
            } else {
                Tint::TextMuted
            };
            let mt = if is_selected {
                Tint::SelectedAccent
            } else {
                conn
            };
            let mut first: Vec<Piece> = Vec::new();
            push_piece(&mut first, mk(n.prefix.clone(), conn, false));
            push_piece(&mut first, mk(marker_exec(is_cursor, is_selected), mt, false));
            let a = crate::tui::update::rows::arrow_index_pub(n.label.as_str());
            let len = n.label.unicode_len();
            if a < len {
                push_piece(&mut first, mk(crate::text::prefix_to(n.label.as_str(), a), key_tint, false));
                push_piece(&mut first, mk(text(" \u{2192} "), Tint::TextMuted, false));
                let exp = crate::text::suffix_from(n.label.as_str(), a + 3);
                proof {
                    assert(n.label@.skip(a + 3) =~= n.label@.subrange(a + 3, len as int));
                    assert(n.label@.take(a as int) =~= n.label@.subrange(0, a as int));
                }
                push_piece(&mut first, mk(exp, exp_tint, false));
            } else {
                push_piece(&mut first, mk(n.label.clone(), key_tint, false));
                push_piece(&mut first, mk(String::new(), Tint::Plain, false));
                push_piece(&mut first, mk(String::new(), Tint::Plain, false));
            }
            proof {
                let row = row_lines(t, i as int, is_cursor, is_selected, match order {
                    Some(k) => Some(k as int),
                    None => None,
                });
                assert(line_view(first@) =~= row[0]);
            }
            if next_scope {
                let second = vec![mk(bars_only_exec(n.prefix.as_str()), Tint::TreeConnector, false)];
                assert(line_view(second@) =~= seq![second@[0]@]);
                two_lines(first, second)
            } else {
                one_line(first)
            }
        },
        NodeKind::AliasItem => {
            let last = !(i + 1 < tree.len() && match tree[i + 1].kind {
                NodeKind::AliasItem | NodeKind::SubcommandProgramHeader => true,
                _ => false,
            });
            let conn = if is_cursor {
                Tint::TreeConnectorActive
            } else if is_selected {
                Tint::SelectedAccentMuted
            } else {
                Tint::TreeConnector
            };
            let mt = if is_selected {
                Tint::SelectedAccent
            } else {
                conn
            };
            let name_tint = if is_cursor {
                Tint::Gold
            } else if is_selected {
                Tint::SelectedText
            } else {
                Tint::TextPrimary
            };
            let cmd_tint = if is_cursor {
                Tint::HeaderDefault
            } else if is_selected {
                Tint::SelectedAccentMuted
            } else {
                Tint::TextMuted
            };
            let arm = if last {
                text(TREE_LAST)
            } else {
                text(TREE_BRANCH)
            };
            let cmd = match &n.alias_command {
                Some(c) => c.clone(),
                None => String::new(),
            };
            let mut first: Vec<Piece> = Vec::new();
            push_piece(&mut first, mk(concat(n.content_prefix.as_str(), arm.as_str()), conn, false));
            push_piece(&mut first, mk(marker_exec(is_cursor, is_selected), mt, false));
            push_piece(&mut first, mk(n.label.clone(), name_tint, is_cursor || is_selected));
            push_piece(&mut first, mk(text(" -> "), Tint::TextMuted, false));
            push_piece(&mut first, mk(cmd, cmd_tint, false));
            proof {
                let row = row_lines(t, i as int, is_cursor, is_selected, match order {
                    Some(k) => Some(k as int),
                    None => None,
                });
                assert(line_view(first@) =~= row[0]);
            }
            let closes = last && i + 1 < tree.len() && match tree[i + 1].kind {
                NodeKind::GlobalHeader | NodeKind::ProjectHeader | NodeKind::ProfileHeader
                | NodeKind::SubcommandProgramHeader => true,
                _ => false,
            };
            if closes {
                let second = vec![mk(n.content_prefix.clone(), Tint::TreeConnector, false)];
                assert(line_view(second@) =~= seq![second@[0]@]);
                two_lines(first, second)
            } else {
                one_line(first)
            }
        },
    }
}

fn append_lines(out: &mut Vec<Vec<Piece>>, more: Vec<Vec<Piece>>)
    ensures
        lines_view(final(out)@) == lines_view(old(out)@) + lines_view(more@),
{
    let ghost a = out@;
    let mut more = more;
    let ghost b = more@;
    out.append(&mut more);
    assert(lines_view(a + b) =~= lines_view(a) + lines_view(b));
}

/// The lines of the alias tree: each row in turn, with the cursor shown
/// when the tree column has it.
pub fn render_tree_lines(model: &TuiModel) -> (r: Vec<Vec<Piece>>)
    ensures
        lines_view(r@) == tree_lines(*model),
{
    let mut out: Vec<Vec<Piece>> = Vec::new();
    let mut i: usize = 0;
    let n = model.tree.len();
    let on_left = match model.active_column {
        Column::Left => true,
        Column::Right => false,
    };
    while i < n
        invariant
            n == model.tree@.len(),
            i <= n,
            on_left == (model.active_column == Column::Left),
            lines_view(out@) == tree_lines_upto(*model, i as int),
        decreases n - i,
    {
        let node = &model.tree[i];
        let is_selected = match &node.alias_id {
            Some(id) => sel_contains(model.selected.as_slice(), id),
            None => false,
        };
        let order = activation_order(model.active_profiles.as_slice(), node.label.as_str());
        proof {
            let t = nodes_view(model.tree@);
            assert(t[i as int] == node@);
            assert(views(model.active_profiles@) == model.active_view());
        }
        let rows = row_lines_exec(model.tree.as_slice(), i, i == model.cursor && on_left, is_selected, order);
        proof {
            let t = nodes_view(model.tree@);
            assert(is_selected == row_selected(ids_view(model.selected@), t[i as int]));
            assert(match order {
                Some(k) => Some(k as int),
                None => None,
            } == activation(model.active_view(), t[i as int].label));
        }
        append_lines(&mut out, rows);
        i = i + 1;
    }
    out
}

/// The title of the destination column.
pub open spec fn dest_title(mode: ModeSpec) -> Seq<char> {
    if mode == ModeSpec::Transfer(TransferMode::Copy) {
        "-> Copy to"@
    } else {
        "-> Move to"@
    }
}

/// The header lines of the first `k` destination rows.
pub open spec fn dest_lines_upto(m: TuiModel, k: int) -> Seq<Seq<PieceSpec>>
    decreases k,
{
    if k <= 0 {
        Seq::empty()
    } else {
        let t = nodes_view(m.dest_tree@);
        let i = k - 1;
        dest_lines_upto(m, i) + if scope_header(t[i].kind) {
            seq![
                header_line(
                    t[i],
                    i == m.dest_cursor && m.active_column == Column::Right,
                    activation(m.active_view(), t[i].label),
                ),
            ]
        } else {
            Seq::empty()
        }
    }
}

/// The destination column: its title in bold, a blank line, and a header
/// line for each destination.
pub open spec fn dest_lines(m: TuiModel) -> Seq<Seq<PieceSpec>> {
    seq![seq![piece(dest_title(m.mode@), Tint::HeaderDefault, true)], Seq::empty()] + dest_lines_upto(
        m,
        m.dest_tree@.len() as int,
    )
}

/// The lines of the destination column.
pub fn render_dest_lines(model: &TuiModel) -> (r: Vec<Vec<Piece>>)
    ensures
        lines_view(r@) == dest_lines(*model),
{
    let title = match &model.mode {
        Mode::Transfer(TransferMode::Copy) => text("-> Copy to"),
        _ => text("-> Move to"),
    };
    let head = vec![mk(title, Tint::HeaderDefault, true)];
    assert(line_view(head@) =~= seq![head@[0]@]);
    let mut out: Vec<Vec<Piece>> = vec![head, Vec::new()];
    proof {
        assert(line_view(out@[1]@) =~= Seq::<PieceSpec>::empty());
        assert(lines_view(out@) =~= seq![line_view(out@[0]@), line_view(out@[1]@)]);
    }
    let ghost top = lines_view(out@);
    let on_right = match model.active_column {
        Column::Left => false,
        Column::Right => true,
    };
    let n = model.dest_tree.len();
    let mut i: usize = 0;
    while i < n
        invariant
            n == model.dest_tree@.len(),
            i <= n,
            on_right == (model.active_column == Column::Right),
            top == seq![seq![piece(dest_title(model.mode@), Tint::HeaderDefault, true)], Seq::<PieceSpec>::empty()],
            lines_view(out@) == top + dest_lines_upto(*model, i as int),
        decreases n - i,
    {
        let node = &model.dest_tree[i];
        proof {
            assert(nodes_view(model.dest_tree@)[i as int] == node@);
            assert(views(model.active_profiles@) == model.active_view());
        }
        let is_header = match node.kind {
            NodeKind::GlobalHeader | NodeKind::ProjectHeader | NodeKind::ProfileHeader => true,
            _ => false,
        };
        proof {
            assert(is_header == scope_header(node@.kind));
        }
        if is_header {
            let order = activation_order(model.active_profiles.as_slice(), node.label.as_str());
            let line = header_line_exec(node, i == model.dest_cursor && on_right, order);
            let ghost before = lines_view(out@);
            out.push(line);
            proof {
                assert(lines_view(out@) =~= before.push(line_view(out@[out@.len() - 1]@)));
            }
        }
        proof {
            assert(top + dest_lines_upto(*model, i + 1) =~= lines_view(out@));
        }
        i = i + 1;
    }
    out
}

/// The cursor of a field, held to the end of its text.
pub open spec fn clamped(t: Seq<char>, cursor: int) -> int {
    if cursor < byte_len(t) {
        cursor
    } else {
        byte_len(t) as int
    }
}

/// A cursor that can be drawn: past the end, or on a character boundary.
pub open spec fn cursor_drawable(t: Seq<char>, cursor: int) -> bool {
    cursor < byte_len(t) ==> is_boundary(t, cursor)
}

/// A field of a form: under the cursor it is split around a `_` at the
/// cursor (held to the end of the text); otherwise it is shown muted.
pub open spec fn field_pieces(t: Seq<char>, active: bool, cursor: int) -> Seq<PieceSpec> {
    if active {
        let k = char_index(t, clamped(t, cursor));
        seq![
            piece(t.take(k), Tint::TextPrimary, false),
            piece("_"@, Tint::TextPrimary, false),
            piece(t.skip(k), Tint::TextPrimary, false),
        ]
    } else {
        seq![piece(t, Tint::TextMuted, false)]
    }
}

fn push_field(line: &mut Vec<Piece>, t: &str, active: bool, cursor: usize)
    requires
        active ==> cursor_drawable(t@, cursor as int),
    ensures
        line_view(final(line)@) == line_view(old(line)@) + field_pieces(t@, active, cursor as int),
{
    let ghost before = line_view(line@);
    if active {
        let len = utf8_len(t);
        let pos = if cursor < len {
            cursor
        } else {
            len
        };
        proof {
            assert(t@.take(t@.len() as int) =~= t@);
            assert(is_boundary(t@, byte_len(t@) as int));
        }
        let k = index_at(t, pos);
        let head = crate::text::prefix_to(t, k);
        let tail = crate::text::suffix_from(t, k);
        proof {
            assert(head@ =~= t@.take(k as int));
            assert(tail@ =~= t@.skip(k as int));
        }
        push_piece(line, mk(head, Tint::TextPrimary, false));
        push_piece(line, mk(text("_"), Tint::TextPrimary, false));
        push_piece(line, mk(tail, Tint::TextPrimary, false));
    } else {
        push_piece(line, mk(text(t), Tint::TextMuted, false));
    }
    assert(line_view(line@) =~= before + field_pieces(t@, active, cursor as int));
}

/// An error note after a form, or nothing.
pub open spec fn error_piece(error: Option<Seq<char>>) -> PieceSpec {
    match error {
        Some(e) => piece("  ("@ + e + ")"@, Tint::ErrorRed, false),
        None => piece(Seq::empty(), Tint::Plain, false),
    }
}

fn error_piece_exec(error: &Option<String>) -> (r: Piece)
    ensures
        r@ == error_piece(crate::alias::opt_view(*error)),
{
    match error {
        Some(e) => {
            let mut t = text("  (");
            push_str(&mut t, e.as_str());
            push_str(&mut t, ")");
            mk(t, Tint::ErrorRed, false)
        },
        None => mk(String::new(), Tint::Plain, false),
    }
}

/// The pieces of pair `i` of a subcommand form.
pub open spec fn pair_pieces(
    pairs: Seq<(Seq<char>, Seq<char>)>,
    i: int,
    active_pair: int,
    field: SubcommandField,
    cursor: int,
) -> Seq<PieceSpec> {
    (if i > 0 {
        seq![piece(" \u{203a} "@, Tint::TextMuted, false)]
    } else {
        Seq::empty()
    }) + field_pieces(pairs[i].0, i == active_pair && field == SubcommandField::Short, cursor) + seq![
        piece(" \u{2192} "@, Tint::TextMuted, false),
    ] + field_pieces(pairs[i].1, i == active_pair && field == SubcommandField::Long, cursor)
}

/// The pieces of the first `k` pairs of a subcommand form.
pub open spec fn pairs_pieces(
    pairs: Seq<(Seq<char>, Seq<char>)>,
    k: int,
    active_pair: int,
    field: SubcommandField,
    cursor: int,
) -> Seq<PieceSpec>
    decreases k,
{
    if k <= 0 {
        Seq::empty()
    } else {
        pairs_pieces(pairs, k - 1, active_pair, field, cursor) + pair_pieces(pairs, k - 1, active_pair, field, cursor)
    }
}

/// The scope a new alias goes to, as shown in its form.
pub open spec fn target_label(t: TargetView) -> Seq<char> {
    match t {
        TargetView::Global => "global"@,
        TargetView::Project => "project"@,
        TargetView::Profile(p) => p,
    }
}

/// The scope of an alias being edited, as shown in its form.
pub open spec fn scope_label(id: IdSpec) -> Seq<char> {
    match id {
        IdSpec::Global(_) => "global"@,
        IdSpec::Profile(p, _) => p,
        IdSpec::Project(_) => "project"@,
        IdSpec::Subcommand(_, _) => "subcmd"@,
    }
}

/// A name and command form: the scope in brackets, the two fields around
/// ` = `, and a closing piece.
pub open spec fn alias_form_pieces(
    scope: Seq<char>,
    name: Seq<char>,
    command: Seq<char>,
    field: AliasField,
    cursor: int,
    last: PieceSpec,
) -> Seq<PieceSpec> {
    seq![piece("  ["@ + scope + "] "@, Tint::Gold, false)] + field_pieces(name, field == AliasField::Name, cursor)
        + seq![piece(" = "@, Tint::TextMuted, false)] + field_pieces(command, field == AliasField::Command, cursor)
        + seq![last]
}

/// The hint shown while the name of a new alias is still empty.
pub open spec fn name_hint(name: Seq<char>, field: AliasField) -> PieceSpec {
    if name.len() == 0 && field == AliasField::Name {
        piece("  \u{b7} e.g. ll, or git: for subcommand"@, Tint::TextMuted, false)
    } else {
        piece(Seq::empty(), Tint::Plain, false)
    }
}

/// The line of a text form.
pub open spec fn form_line(f: FormSpec) -> Seq<PieceSpec> {
    match f {
        FormSpec::NewProfile(t) => seq![
            piece("  New profile: "@, Tint::Gold, false),
            piece(t, Tint::TextPrimary, false),
            piece("_"@, Tint::TextPrimary, false),
        ],
        FormSpec::NewAlias { name, command, active_field, cursor, target } => alias_form_pieces(
            target_label(target),
            name,
            command,
            active_field,
            cursor,
            name_hint(name, active_field),
        ),
        FormSpec::EditProfile { name, error, .. } => seq![
            piece("  Rename profile: "@, Tint::Gold, false),
            piece(name, Tint::TextPrimary, false),
            piece("_"@, Tint::TextPrimary, false),
            error_piece(error),
        ],
        FormSpec::SubcommandInput { program, pairs, active_pair, active_field, cursor, .. } => seq![
            piece("  "@ + program + ": "@, Tint::Gold, false),
        ] + pairs_pieces(pairs, pairs.len() as int, active_pair, active_field, cursor) + seq![
            piece("   (Tab: next, Shift+Tab: back, \u{21b5}: confirm, Esc: cancel)"@, Tint::TextMuted, false),
        ],
        FormSpec::EditAlias { alias_id, name, command, active_field, cursor, error } => alias_form_pieces(
            scope_label(alias_id),
            name,
            command,
            active_field,
            cursor,
            error_piece(error),
        ),
    }
}

fn push_alias_form(
    line: &mut Vec<Piece>,
    scope: &str,
    name: &str,
    command: &str,
    field: AliasField,
    cursor: usize,
    last: Piece,
)
    requires
        old(line)@.len() == 0,
        cursor_drawable(field_text(name@, command@, field), cursor as int),
    ensures
        line_view(final(line)@) == alias_form_pieces(scope@, name@, command@, field, cursor as int, last@),
{
    let mut lead = text("  [");
    push_str(&mut lead, scope);
    push_str(&mut lead, "] ");
    assert(line_view(line@) =~= Seq::<PieceSpec>::empty());
    push_piece(line, mk(lead, Tint::Gold, false));
    let name_active = match field {
        AliasField::Name => true,
        AliasField::Command => false,
    };
    push_field(line, name, name_active, cursor);
    push_piece(line, mk(text(" = "), Tint::TextMuted, false));
    push_field(line, command, !name_active, cursor);
    push_piece(line, last);
}

/// A form whose cursor can be drawn in its active field.
pub open spec fn form_drawable(f: FormSpec) -> bool {
    match f {
        FormSpec::NewAlias { name, command, active_field, cursor, .. } => cursor_drawable(
            field_text(name, command, active_field),
            cursor,
        ),
        FormSpec::EditAlias { name, command, active_field, cursor, .. } => cursor_drawable(
            field_text(name, command, active_field),
            cursor,
        ),
        FormSpec::SubcommandInput { pairs, active_pair, active_field, cursor, .. } => 0 <= active_pair < pairs.len()
            ==> cursor_drawable(pair_text(pairs, active_pair, active_field), cursor),
        _ => true,
    }
}

/// The forms the interface keeps can be drawn.
pub proof fn lemma_form_ok_drawable(f: FormSpec)
    requires
        form_ok(f),
    ensures
        form_drawable(f),
{
}

/// The line of a text form.
pub fn text_input_line(state: &TextInputState) -> (r: Vec<Piece>)
    requires
        form_drawable(state@),
    ensures
        line_view(r@) == form_line(state@),
{
    let mut line: Vec<Piece> = Vec::new();
    assert(line_view(line@) =~= Seq::<PieceSpec>::empty());
    match state {
        TextInputState::NewProfile(t) => {
            push_piece(&mut line, mk(text("  New profile: "), Tint::Gold, false));
            push_piece(&mut line, mk(t.clone(), Tint::TextPrimary, false));
            push_piece(&mut line, mk(text("_"), Tint::TextPrimary, false));
        },
        TextInputState::NewAlias { name, command, active_field, cursor, target } => {
            let label = match target {
                AliasTarget::Global => text("global"),
                AliasTarget::Project => text("project"),
                AliasTarget::Profile(p) => p.clone(),
            };
            let name_active = match active_field {
                AliasField::Name => true,
                AliasField::Command => false,
            };
            let hint = if name.unicode_len() == 0 && name_active {
                mk(text("  \u{b7} e.g. ll, or git: for subcommand"), Tint::TextMuted, false)
            } else {
                mk(String::new(), Tint::Plain, false)
            };
            push_alias_form(&mut line, label.as_str(), name.as_str(), command.as_str(), *active_field, *cursor, hint);
        },
        TextInputState::EditProfile { name, error, .. } => {
            push_piece(&mut line, mk(text("  Rename profile: "), Tint::Gold, false));
            push_piece(&mut line, mk(name.clone(), Tint::TextPrimary, false));
            push_piece(&mut line, mk(text("_"), Tint::TextPrimary, false));
            push_piece(&mut line, error_piece_exec(error));
        },
        TextInputState::EditAlias { alias_id, name, command, active_field, cursor, error } => {
            let label = match alias_id {
                AliasId::Global { .. } => text("global"),
                AliasId::Profile { profile_name, .. } => profile_name.clone(),
                AliasId::Project { .. } => text("project"),
                AliasId::Subcommand { .. } => text("subcmd"),
            };
            push_alias_form(
                &mut line,
                label.as_str(),
                name.as_str(),
                command.as_str(),
                *active_field,
                *cursor,
                error_piece_exec(error),
            );
        },
        TextInputState::SubcommandInput { program, pairs, active_pair, active_field, cursor, .. } => {
            let mut lead = text("  ");
            push_str(&mut lead, program.as_str());
            push_str(&mut lead, ": ");
            push_piece(&mut line, mk(lead, Tint::Gold, false));
            let ghost pv = pairs_view(pairs@);
            let ghost start = line_view(line@);
            let short_field = match active_field {
                SubcommandField::Short => true,
                SubcommandField::Long => false,
            };
            let mut i: usize = 0;
            while i < pairs.len()
                invariant
                    i <= pairs@.len(),
                    pv == pairs_view(pairs@),
                    short_field == (*active_field == SubcommandField::Short),
                    0 <= *active_pair < pairs@.len() ==> cursor_drawable(
                        pair_text(pv, *active_pair as int, *active_field),
                        *cursor as int,
                    ),
                    line_view(line@) == start + pairs_pieces(pv, i as int, *active_pair as int, *active_field, *cursor as int),
                decreases pairs@.len() - i,
            {
                let ghost before = line_view(line@);
                if i > 0 {
                    push_piece(&mut line, mk(text(" \u{203a} "), Tint::TextMuted, false));
                }
                let is_active = i == *active_pair;
                proof {
                    assert(pv[i as int] == (pairs@[i as int].0@, pairs@[i as int].1@));
                }
                push_field(&mut line, pairs[i].0.as_str(), is_active && short_field, *cursor);
                push_piece(&mut line, mk(text(" \u{2192} "), Tint::TextMuted, false));
                push_field(&mut line, pairs[i].1.as_str(), is_active && !short_field, *cursor);
                proof {
                    assert(line_view(line@) =~= before + pair_pieces(pv, i as int, *active_pair as int, *active_field, *cursor as int));
                }
                i = i + 1;
            }
            push_piece(
                &mut line,
                mk(text("   (Tab: next, Shift+Tab: back, \u{21b5}: confirm, Esc: cancel)"), Tint::TextMuted, false),
            );
        },
    }
    line
}

/// The question asked before an action is carried out.
pub open spec fn confirm_text(a: ConfirmSpec) -> Seq<char> {
    match a {
        ConfirmSpec::DeleteProfile(name) => "  "@ + "Delete profile \""@ + name + "\"? [y/n]"@,
        ConfirmSpec::OverwriteAliases { aliases, destination, transfer_mode } => "  "@ + (match transfer_mode {
            TransferMode::Move => "Move"@,
            TransferMode::Copy => "Copy"@,
        }) + " "@ + decimal(aliases.len()) + " alias(es) to "@ + (match destination {
            DestSpec::Global => "global"@,
            DestSpec::Project => "project"@,
            DestSpec::Profile(n) => "profile \""@ + n + "\""@,
        }) + ", overwriting duplicates? [y/n]"@,
    }
}

/// The question asked before an action, in gold.
pub fn confirm_message(action: &ConfirmAction) -> (r: Piece)
    ensures
        r@ == piece(confirm_text(action@), Tint::Gold, false),
{
    let mut t = text("  ");
    match action {
        ConfirmAction::DeleteProfile(name) => {
            push_str(&mut t, "Delete profile \"");
            push_str(&mut t, name.as_str());
            push_str(&mut t, "\"? [y/n]");
            proof {
                assert(t@ =~= "  "@ + "Delete profile \""@ + name@ + "\"? [y/n]"@);
            }
        },
        ConfirmAction::OverwriteAliases { aliases, destination, transfer_mode } => {
            match transfer_mode {
                TransferMode::Move => push_str(&mut t, "Move"),
                TransferMode::Copy => push_str(&mut t, "Copy"),
            }
            push_str(&mut t, " ");
            let count = decimal_string(aliases.len());
            push_str(&mut t, count.as_str());
            push_str(&mut t, " alias(es) to ");
            match destination {
                MoveDestination::Global => push_str(&mut t, "global"),
                MoveDestination::Project => push_str(&mut t, "project"),
                MoveDestination::Profile(n) => {
                    push_str(&mut t, "profile \"");
                    push_str(&mut t, n.as_str());
                    push_str(&mut t, "\"");
                },
            }
            push_str(&mut t, ", overwriting duplicates? [y/n]");
            proof {
                assert(ids_view(aliases@).len() == aliases@.len());
                assert(t@ =~= confirm_text(action@));
            }
        },
    }
    mk(t, Tint::Gold, false)
}

/// A key in gold and what it does, muted.
pub open spec fn key_help(k: Seq<char>, d: Seq<char>) -> Seq<PieceSpec> {
    seq![piece(k, Tint::Gold, false), piece(d, Tint::TextMuted, false)]
}

fn push_key(line: &mut Vec<Piece>, k: &str, d: &str)
    ensures
        line_view(final(line)@) == line_view(old(line)@) + key_help(k@, d@),
{
    let ghost before = line_view(line@);
    push_piece(line, mk(text(k), Tint::Gold, false));
    push_piece(line, mk(text(d), Tint::TextMuted, false));
    assert(line_view(line@) =~= before + key_help(k@, d@));
}

/// The keys of a form that is cancelled with Esc and confirmed with Enter.
pub open spec fn esc_enter_help() -> Seq<PieceSpec> {
    key_help("Esc"@, " cancel  "@) + key_help("Enter"@, " confirm"@)
}

/// The keys of a transfer, ending with what Enter does.
pub open spec fn transfer_help(enter: Seq<char>) -> Seq<PieceSpec> {
    key_help("Esc"@, " cancel  "@) + key_help("jk/\u{2191}\u{2193}"@, " navigate  "@) + key_help("Enter"@, enter)
        + key_help("Tab"@, " switch column"@)
}

/// The keys of normal mode; on a profile how to use or unuse it, on the
/// project how to trust or untrust it.
pub open spec fn normal_help(tree: Seq<NodeSpec>, cursor: int) -> Seq<PieceSpec> {
    let on = 0 <= cursor < tree.len();
    let on_profile = on && tree[cursor].kind == NodeKind::ProfileHeader;
    let on_project = on && tree[cursor].kind == NodeKind::ProjectHeader;
    key_help("q"@, " quit  "@) + key_help("a"@, " add  "@) + key_help("Space"@, " select  "@) + key_help(
        "m"@,
        " move  "@,
    ) + key_help("c"@, " copy  "@) + key_help("n"@, " new profile  "@) + key_help("x"@, " delete  "@) + key_help(
        "e"@,
        " edit"@,
    ) + (if on_profile {
        key_help("  u"@, if tree[cursor].is_active {
            " unuse"@
        } else {
            " use"@
        })
    } else {
        Seq::empty()
    }) + (if on_project {
        key_help("  t"@, if tree[cursor].project_trust == Some(ProjectTrustState::Trusted) {
            " untrust"@
        } else {
            " trust"@
        })
    } else {
        Seq::empty()
    })
}

/// The help bar: a blank lead and the keys of the current mode.
pub open spec fn help_line(mode: ModeSpec, tree: Seq<NodeSpec>, cursor: int) -> Seq<PieceSpec> {
    seq![piece("  "@, Tint::Plain, false)] + match mode {
        ModeSpec::Normal => normal_help(tree, cursor),
        ModeSpec::Transfer(TransferMode::Move) => transfer_help(" move here  "@),
        ModeSpec::Transfer(TransferMode::Copy) => transfer_help(" copy here  "@),
        ModeSpec::TextInput(FormSpec::NewAlias { name, .. }) => key_help("Tab"@, if name.contains(':') {
            " \u{2192} subcommand mode  "@
        } else {
            " switch field  "@
        }) + esc_enter_help(),
        ModeSpec::TextInput(FormSpec::EditAlias { .. }) => key_help("Tab"@, " switch field  "@) + esc_enter_help(),
        ModeSpec::TextInput(FormSpec::SubcommandInput { .. }) => key_help("Tab/\u{2190}\u{2192}"@, " switch field/pair  "@)
            + key_help("a"@, " add pair  "@) + esc_enter_help(),
        ModeSpec::TextInput(_) => esc_enter_help(),
        ModeSpec::Confirm(_) => key_help("y"@, " confirm  "@) + key_help("n"@, " cancel"@),
    }
}

fn push_esc_enter(line: &mut Vec<Piece>)
    ensures
        line_view(final(line)@) == line_view(old(line)@) + esc_enter_help(),
{
    let ghost before = line_view(line@);
    push_key(line, "Esc", " cancel  ");
    push_key(line, "Enter", " confirm");
    assert(line_view(line@) =~= before + esc_enter_help());
}

fn push_transfer(line: &mut Vec<Piece>, enter: &str)
    ensures
        line_view(final(line)@) == line_view(old(line)@) + transfer_help(enter@),
{
    let ghost before = line_view(line@);
    push_key(line, "Esc", " cancel  ");
    push_key(line, "jk/\u{2191}\u{2193}", " navigate  ");
    push_key(line, "Enter", enter);
    push_key(line, "Tab", " switch column");
    assert(line_view(line@) =~= before + transfer_help(enter@));
}

fn push_normal(line: &mut Vec<Piece>, model: &TuiModel)
    ensures
        line_view(final(line)@) == line_view(old(line)@) + normal_help(nodes_view(model.tree@), model.cursor as int),
{
    let ghost before = line_view(line@);
    push_key(line, "q", " quit  ");
    push_key(line, "a", " add  ");
    push_key(line, "Space", " select  ");
    push_key(line, "m", " move  ");
    push_key(line, "c", " copy  ");
    push_key(line, "n", " new profile  ");
    push_key(line, "x", " delete  ");
    push_key(line, "e", " edit");
    let ghost base = line_view(line@);
    let on = model.cursor < model.tree.len();
    if on {
        let node = &model.tree[model.cursor];
        proof {
            assert(nodes_view(model.tree@)[model.cursor as int] == node@);
        }
        let ghost mid = line_view(line@);
        if node.kind == NodeKind::ProfileHeader {
            if node.is_active {
                push_key(line, "  u", " unuse");
            } else {
                push_key(line, "  u", " use");
            }
        }
        if node.kind == NodeKind::ProjectHeader {
            let trusted = match node.project_trust {
                Some(ProjectTrustState::Trusted) => true,
                _ => false,
            };
            if trusted {
                push_key(line, "  t", " untrust");
            } else {
                push_key(line, "  t", " trust");
            }
        }
    }
    assert(line_view(line@) =~= before + normal_help(nodes_view(model.tree@), model.cursor as int));
}

/// The help bar for the current mode.
pub fn help_bar(model: &TuiModel) -> (r: Vec<Piece>)
    ensures
        line_view(r@) == help_line(model.mode@, nodes_view(model.tree@), model.cursor as int),
{
    let mut line: Vec<Piece> = Vec::new();
    assert(line_view(line@) =~= Seq::<PieceSpec>::empty());
    push_piece(&mut line, mk(text("  "), Tint::Plain, false));
    match &model.mode {
        Mode::Normal => push_normal(&mut line, model),
        Mode::Transfer(TransferMode::Move) => push_transfer(&mut line, " move here  "),
        Mode::Transfer(TransferMode::Copy) => push_transfer(&mut line, " copy here  "),
        Mode::TextInput(TextInputState::NewAlias { name, .. }) => {
            if contains_char(name.as_str(), ':') {
                push_key(&mut line, "Tab", " \u{2192} subcommand mode  ");
            } else {
                push_key(&mut line, "Tab", " switch field  ");
            }
            push_esc_enter(&mut line);
        },
        Mode::TextInput(TextInputState::EditAlias { .. }) => {
            push_key(&mut line, "Tab", " switch field  ");
            push_esc_enter(&mut line);
        },
        Mode::TextInput(TextInputState::SubcommandInput { .. }) => {
            push_key(&mut line, "Tab/\u{2190}\u{2192}", " switch field/pair  ");
            push_key(&mut line, "a", " add pair  ");
            push_esc_enter(&mut line);
        },
        Mode::TextInput(_) => push_esc_enter(&mut line),
        Mode::Confirm(_) => {
            push_key(&mut line, "y", " confirm  ");
            push_key(&mut line, "n", " cancel");
        },
    }
    assert(line_view(line@) =~= help_line(model.mode@, nodes_view(model.tree@), model.cursor as int));
    line
}

/// The rows of a list of `total` lines shown in a window of `height` rows
/// scrolled to `start`: from `start` to the end of the window or of the
/// list, and nothing once `start` is past the list.
pub fn visible_range(total: usize, start: usize, height: usize) -> (r: (usize, usize))
    ensures
        start < total ==> r == (start, if height <= total - start {
            (start + height) as usize
        } else {
            total
        }),
        start >= total ==> r == (total, total),
{
    if start < total {
        if height <= total - start {
            (start, start + height)
        } else {
            (start, total)
        }
    } else {
        (total, total)
    }
}

/// Is a blank separator line drawn between rows of kinds `k` and `next`?
/// After a profile header, an alias or a subcommand item, before a scope
/// header.
pub open spec fn separator_drawn(k: NodeKind, next: NodeKind) -> bool {
    (k == NodeKind::ProfileHeader || k == NodeKind::AliasItem || k == NodeKind::SubcommandItem) && scope_header(next)
}

/// Wherever the line estimate counts a separator, one is drawn.
pub open spec fn separators_agree(k: Seq<NodeKind>) -> bool {
    forall|i: int|
        0 <= i && i + 1 < k.len() && #[trigger] ends_section(k[i]) && starts_section(k[i + 1]) ==> separator_drawn(
            k[i],
            k[i + 1],
        )
}

proof fn lemma_row_line_count(tree: Seq<NodeSpec>, i: int, is_cursor: bool, is_selected: bool, order: Option<int>)
    requires
        0 <= i < tree.len(),
    ensures
        row_lines(tree, i, is_cursor, is_selected, order).len() == 1 + if i + 1 < tree.len() && separator_drawn(
            tree[i].kind,
            tree[i + 1].kind,
        ) {
            1int
        } else {
            0
        },
{
}

/// The line the cursor of the alias tree is estimated to start on is the
/// number of lines drawn for the rows above it, wherever the estimate counts
/// separator lines as the drawing draws them.
pub proof fn law_cursor_line_matches_drawing(m: TuiModel, n: int)
    requires
        0 <= n <= m.tree@.len(),
        separators_agree(kinds(m.tree@)),
    ensures
        tree_lines_upto(m, n).len() == lines_of(kinds(m.tree@), n),
    decreases n,
{
    if n > 0 {
        let t = nodes_view(m.tree@);
        let k = kinds(m.tree@);
        let i = n - 1;
        law_cursor_line_matches_drawing(m, i);
        lemma_row_line_count(
            t,
            i,
            i == m.cursor && m.active_column == Column::Left,
            row_selected(ids_view(m.selected@), t[i]),
            activation(m.active_view(), t[i].label),
        );
        assert(t[i].kind == k[i]);
        if i + 1 < t.len() {
            assert(t[i + 1].kind == k[i + 1]);
            if ends_section(k[i]) && starts_section(k[i + 1]) {
                assert(separator_drawn(k[i], k[i + 1]));
            }
        }
    }
}

/// Rows of a scope header or an alias: all the alias tree is made of.
pub open spec fn plain_rows(s: Seq<NodeSpec>) -> bool {
    forall|i: int| 0 <= i < s.len() ==> scope_header(#[trigger] s[i].kind) || s[i].kind == NodeKind::AliasItem
}

proof fn lemma_plain_concat(a: Seq<NodeSpec>, b: Seq<NodeSpec>)
    requires
        plain_rows(a),
        plain_rows(b),
    ensures
        plain_rows(a + b),
{
    assert forall|i: int| 0 <= i < (a + b).len() implies scope_header(#[trigger] (a + b)[i].kind) || (a
        + b)[i].kind == NodeKind::AliasItem by {
        if i < a.len() {
            assert((a + b)[i] == a[i]);
        } else {
            assert((a + b)[i] == b[i - a.len()]);
        }
    }
}

proof fn lemma_global_plain(pairs: Seq<(Seq<char>, AliasSpec)>, children: int)
    ensures
        plain_rows(global_alias_nodes(pairs, children)),
    decreases pairs.len(),
{
    if pairs.len() > 0 {
        let p = pairs.last();
        lemma_global_plain(pairs.drop_last(), children);
        lemma_plain_concat(
            global_alias_nodes(pairs.drop_last(), children),
            seq![alias_node(IdSpec::Global(p.0), p.1.command, p.0, Seq::empty())],
        );
    }
}

proof fn lemma_profile_block_plain(rows: Seq<NodeSpec>, head: NodeSpec, profiles: Seq<Profile>, name: Seq<char>, cp: Seq<char>)
    requires
        plain_rows(rows),
        head.kind == NodeKind::ProfileHeader,
    ensures
        plain_rows(rows + seq![head] + profile_alias_nodes(name, profile_pairs(profiles, name), cp)),
{
    lemma_plain_concat(rows, seq![head]);
    lemma_plain_concat(rows + seq![head], profile_alias_nodes(name, profile_pairs(profiles, name), cp));
}

proof fn lemma_active_plain(profiles: Seq<Profile>, names: Seq<Seq<char>>, total: int, has_project: bool)
    ensures
        plain_rows(active_blocks(profiles, names, total, has_project)),
    decreases names.len(),
{
    if names.len() > 0 {
        let i = names.len() - 1;
        let name = names.last();
        let is_last = i == total - 1 && !has_project;
        let connector = if is_last {
            TREE_LAST@
        } else {
            TREE_BRANCH@
        };
        let cp = (if is_last {
            TREE_SPACE@
        } else {
            TREE_TRUNK@
        }) + "  "@;
        lemma_active_plain(profiles, names.drop_last(), total, has_project);
        lemma_profile_block_plain(
            active_blocks(profiles, names.drop_last(), total, has_project),
            header_node(NodeKind::ProfileHeader, true, name, connector, cp, None),
            profiles,
            name,
            cp,
        );
    }
}

proof fn lemma_inactive_plain(profiles: Seq<Profile>, names: Seq<Seq<char>>)
    ensures
        plain_rows(inactive_blocks(profiles, names)),
    decreases names.len(),
{
    if names.len() > 0 {
        let name = names.last();
        lemma_inactive_plain(profiles, names.drop_last());
        lemma_profile_block_plain(
            inactive_blocks(profiles, names.drop_last()),
            header_node(NodeKind::ProfileHeader, false, name, Seq::empty(), TREE_SPACE@, None),
            profiles,
            name,
            TREE_SPACE@,
        );
    }
}

/// The alias tree over any stores is made of scope headers and aliases.
pub proof fn lemma_tree_plain(st: AliasStores, active: Seq<Seq<char>>, trust: Option<ProjectTrustState>)
    ensures
        plain_rows(tree_of(st, active, trust)),
{
    let global = st.config.aliases.pairs();
    let profiles = st.profiles.profiles@;
    let project = match st.project {
        Some(p) => Some(p.aliases.pairs()),
        None => None,
    };
    let an = active_names(profiles, active);
    let hp = shows_project(project, trust);
    let children = global.len() + an.len() + (if hp {
        1int
    } else {
        0
    });
    let head = seq![header_node(NodeKind::GlobalHeader, false, "global"@, Seq::empty(), Seq::empty(), None)];
    lemma_global_plain(global, children);
    lemma_active_plain(profiles, an, an.len() as int, hp);
    lemma_inactive_plain(profiles, inactive_names(profiles, active));
    lemma_plain_concat(head, global_alias_nodes(global, children));
    lemma_plain_concat(head + global_alias_nodes(global, children), active_blocks(profiles, an, an.len() as int, hp));
    lemma_plain_concat(
        head + global_alias_nodes(global, children) + active_blocks(profiles, an, an.len() as int, hp),
        project_block(project, trust),
    );
    lemma_plain_concat(
        head + global_alias_nodes(global, children) + active_blocks(profiles, an, an.len() as int, hp)
            + project_block(project, trust),
        inactive_blocks(profiles, inactive_names(profiles, active)),
    );
}

/// In the alias tree the interface keeps, every separator the line
/// estimate counts is drawn.
pub proof fn lemma_kept_tree_separators_agree(m: TuiModel)
    requires
        m.trees_current(),
    ensures
        separators_agree(kinds(m.tree@)),
{
    let t = nodes_view(m.tree@);
    let k = kinds(m.tree@);
    lemma_tree_plain(m.stores, m.active_view(), m.project_trust);
    assert forall|i: int|
        0 <= i && i + 1 < k.len() && #[trigger] ends_section(k[i]) && starts_section(k[i + 1]) implies separator_drawn(
        k[i],
        k[i + 1],
    ) by {
        assert(t[i].kind == k[i]);
        assert(t[i + 1].kind == k[i + 1]);
    }
}

} // verus!

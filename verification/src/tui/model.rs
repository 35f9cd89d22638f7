//! The terminal interface's state: tree nodes, modes and messages, and the
//! walks over the tree that navigation and scrolling use.
use vstd::prelude::*;

use crate::alias_id::{AliasId, IdSpec};
use crate::text::views;
use crate::tui::transfer::{AliasStores, DestSpec};
use crate::tui::tree::{build_dest_tree_from_parts, build_tree_from_parts, dest_rows, nodes_view, tree_rows, ProjectTrustState};

verus! {

/// What a tree row shows.
#[derive(Debug, Clone, Copy, PartialEq, Eq, Structural)]
pub enum NodeKind {
    GlobalHeader,
    ProfileHeader,
    AliasItem,
    ProjectHeader,
    SubcommandProgramHeader,
    SubcommandGroupNode,
    SubcommandItem,
}

/// Rows that the selection can hold.
pub open spec fn selectable(k: NodeKind) -> bool {
    k == NodeKind::AliasItem || k == NodeKind::SubcommandProgramHeader || k == NodeKind::SubcommandGroupNode
        || k == NodeKind::SubcommandItem
}

impl NodeKind {
    /// Every row can hold the cursor.
    pub fn is_navigable(&self) -> (r: bool)
        ensures
            r,
    {
        true
    }

    /// Alias rows and subcommand rows can be selected; headers cannot.
    pub fn is_selectable(&self) -> (r: bool)
        ensures
            r == selectable(*self),
    {
        match self {
            NodeKind::AliasItem | NodeKind::SubcommandProgramHeader | NodeKind::SubcommandGroupNode
            | NodeKind::SubcommandItem => true,
            _ => false,
        }
    }
}

/// One row of the tree.
#[derive(Debug, Clone)]
pub struct TreeNode {
    pub kind: NodeKind,
    pub alias_id: Option<AliasId>,
    pub alias_command: Option<String>,
    pub is_active: bool,
    pub label: String,
    /// Tree connector before the row (e.g. "├─", "╰─").
    pub prefix: String,
    /// Prefix for the lines under this row.
    pub content_prefix: String,
    /// Trust state of a project header; none for other rows.
    pub project_trust: Option<ProjectTrustState>,
}

/// What a tree row holds.
pub struct NodeSpec {
    pub kind: NodeKind,
    pub alias_id: Option<IdSpec>,
    pub alias_command: Option<Seq<char>>,
    pub is_active: bool,
    pub label: Seq<char>,
    pub prefix: Seq<char>,
    pub content_prefix: Seq<char>,
    pub project_trust: Option<ProjectTrustState>,
}

impl View for TreeNode {
    type V = NodeSpec;

    open spec fn view(&self) -> NodeSpec {
        NodeSpec {
            kind: self.kind,
            alias_id: match self.alias_id {
                Some(id) => Some(id@),
                None => None,
            },
            alias_command: crate::alias::opt_view(self.alias_command),
            is_active: self.is_active,
            label: self.label@,
            prefix: self.prefix@,
            content_prefix: self.content_prefix@,
            project_trust: self.project_trust,
        }
    }
}

/// The field being edited in the alias form.
#[derive(Debug, Clone, Copy, PartialEq, Eq, Structural)]
pub enum AliasField {
    Name,
    Command,
}

/// The field being edited in a subcommand pair.
#[derive(Debug, Clone, Copy, PartialEq, Eq, Structural)]
pub enum SubcommandField {
    Short,
    Long,
}

/// Where a new alias goes.
#[derive(Debug, Clone, PartialEq)]
pub enum AliasTarget {
    Global,
    Profile(String),
    Project,
}

/// Whether a transfer moves or copies.
#[derive(Debug, Clone, Copy, PartialEq, Eq, Structural)]
pub enum TransferMode {
    Move,
    Copy,
}

/// The state of a text form.
#[derive(Debug, Clone, PartialEq)]
pub enum TextInputState {
    NewProfile(String),
    NewAlias {
        name: String,
        command: String,
        active_field: AliasField,
        /// Byte offset of the cursor within the active field.
        cursor: usize,
        target: AliasTarget,
    },
    EditProfile {
        original_name: String,
        name: String,
        error: Option<String>,
    },
    EditAlias {
        alias_id: AliasId,
        name: String,
        command: String,
        active_field: AliasField,
        /// Byte offset of the cursor within the active field.
        cursor: usize,
        error: Option<String>,
    },
    SubcommandInput {
        program: String,
        pairs: Vec<(String, String)>,
        active_pair: usize,
        active_field: SubcommandField,
        /// Byte offset of the cursor within the active field.
        cursor: usize,
        target: AliasTarget,
        original_key: Option<String>,
    },
}

/// What the keys currently do.
#[derive(Debug, Clone, PartialEq)]
pub enum Mode {
    Normal,
    Transfer(TransferMode),
    TextInput(TextInputState),
    Confirm(ConfirmAction),
}

/// Where a transfer goes.
#[derive(Debug, Clone, PartialEq)]
pub enum MoveDestination {
    Global,
    Project,
    Profile(String),
}

/// An action waiting for a yes or no.
#[derive(Debug, Clone, PartialEq)]
pub enum ConfirmAction {
    DeleteProfile(String),
    OverwriteAliases {
        aliases: Vec<AliasId>,
        destination: MoveDestination,
        transfer_mode: TransferMode,
    },
}

/// The column that has the cursor.
#[derive(Debug, Clone, Copy, PartialEq, Eq, Structural)]
pub enum Column {
    Left,
    Right,
}

/// Where a new alias goes, as a value.
pub enum TargetView {
    Global,
    Profile(Seq<char>),
    Project,
}

impl View for AliasTarget {
    type V = TargetView;

    open spec fn view(&self) -> TargetView {
        match self {
            AliasTarget::Global => TargetView::Global,
            AliasTarget::Profile(n) => TargetView::Profile(n@),
            AliasTarget::Project => TargetView::Project,
        }
    }
}

/// The texts of subcommand pairs.
pub open spec fn pairs_view(pairs: Seq<(String, String)>) -> Seq<(Seq<char>, Seq<char>)> {
    pairs.map_values(|p: (String, String)| (p.0@, p.1@))
}

/// What a text form holds.
pub enum FormSpec {
    NewProfile(Seq<char>),
    NewAlias {
        name: Seq<char>,
        command: Seq<char>,
        active_field: AliasField,
        cursor: int,
        target: TargetView,
    },
    EditProfile { original_name: Seq<char>, name: Seq<char>, error: Option<Seq<char>> },
    EditAlias {
        alias_id: IdSpec,
        name: Seq<char>,
        command: Seq<char>,
        active_field: AliasField,
        cursor: int,
        error: Option<Seq<char>>,
    },
    SubcommandInput {
        program: Seq<char>,
        pairs: Seq<(Seq<char>, Seq<char>)>,
        active_pair: int,
        active_field: SubcommandField,
        cursor: int,
        target: TargetView,
        original_key: Option<Seq<char>>,
    },
}

impl View for TextInputState {
    type V = FormSpec;

    open spec fn view(&self) -> FormSpec {
        match self {
            TextInputState::NewProfile(n) => FormSpec::NewProfile(n@),
            TextInputState::NewAlias { name, command, active_field, cursor, target } => FormSpec::NewAlias {
                name: name@,
                command: command@,
                active_field: *active_field,
                cursor: *cursor as int,
                target: target@,
            },
            TextInputState::EditProfile { original_name, name, error } => FormSpec::EditProfile {
                original_name: original_name@,
                name: name@,
                error: crate::alias::opt_view(*error),
            },
            TextInputState::EditAlias { alias_id, name, command, active_field, cursor, error } => FormSpec::EditAlias {
                alias_id: alias_id@,
                name: name@,
                command: command@,
                active_field: *active_field,
                cursor: *cursor as int,
                error: crate::alias::opt_view(*error),
            },
            TextInputState::SubcommandInput {
                program,
                pairs,
                active_pair,
                active_field,
                cursor,
                target,
                original_key,
            } => FormSpec::SubcommandInput {
                program: program@,
                pairs: pairs_view(pairs@),
                active_pair: *active_pair as int,
                active_field: *active_field,
                cursor: *cursor as int,
                target: target@,
                original_key: crate::alias::opt_view(*original_key),
            },
        }
    }
}

/// What a pending confirmation asks about.
pub enum ConfirmSpec {
    DeleteProfile(Seq<char>),
    OverwriteAliases { aliases: Seq<IdSpec>, destination: DestSpec, transfer_mode: TransferMode },
}

/// The views of a list of alias references.
pub open spec fn ids_view(ids: Seq<AliasId>) -> Seq<IdSpec> {
    ids.map_values(|id: AliasId| id@)
}

impl View for ConfirmAction {
    type V = ConfirmSpec;

    open spec fn view(&self) -> ConfirmSpec {
        match self {
            ConfirmAction::DeleteProfile(n) => ConfirmSpec::DeleteProfile(n@),
            ConfirmAction::OverwriteAliases { aliases, destination, transfer_mode } => ConfirmSpec::OverwriteAliases {
                aliases: ids_view(aliases@),
                destination: destination@,
                transfer_mode: *transfer_mode,
            },
        }
    }
}

/// What the keys currently do, as a value.
pub enum ModeSpec {
    Normal,
    Transfer(TransferMode),
    TextInput(FormSpec),
    Confirm(ConfirmSpec),
}

impl View for Mode {
    type V = ModeSpec;

    open spec fn view(&self) -> ModeSpec {
        match self {
            Mode::Normal => ModeSpec::Normal,
            Mode::Transfer(t) => ModeSpec::Transfer(*t),
            Mode::TextInput(f) => ModeSpec::TextInput(f@),
            Mode::Confirm(c) => ModeSpec::Confirm(c@),
        }
    }
}

/// What a key press or a terminal event asks for.
#[derive(Debug, Clone, Copy, PartialEq, Eq, Structural)]
pub enum TuiMessage {
    CursorUp,
    CursorDown,
    JumpTop,
    JumpBottom,
    ToggleSelect,
    EnterMoveMode,
    ExecuteTransfer,
    CancelTransfer,
    EnterCopyMode,
    SwitchColumn,
    StartCreateProfile,
    StartAddAlias,
    DeleteItem,
    UseProfile,
    UseProfileWithPriority(usize),
    TextInputChar(char),
    TextInputBackspace,
    TextInputConfirm,
    EditItem,
    TextInputCancel,
    TextInputSwitchField,
    TextInputSwitchFieldBack,
    TextInputCursorLeft,
    TextInputCursorRight,
    ConfirmYes,
    ConfirmNo,
    ToggleTrust,
    Quit,
    Resize(u16, u16),
}

pub const MIN_WIDTH: u16 = 60;

pub const MIN_HEIGHT: u16 = 15;

// Tree connectors
pub const TREE_BRANCH: &'static str = "├─";

pub const TREE_LAST: &'static str = "╰─";

pub const TREE_TRUNK: &'static str = "│ ";

pub const TREE_SPACE: &'static str = "  ";

// Icons
pub const ICON_GLOBAL: &'static str = "🌐 ";

pub const ICON_PROJECT: &'static str = "📁 ";

pub const ICON_ACTIVE: &'static str = "●";

pub const ICON_INACTIVE: &'static str = "○";

pub const ICON_SUBCOMMAND: &'static str = "◆";

// Cursor and selection markers
pub const MARKER_CURSOR: &'static str = "▸ ";

pub const MARKER_SELECTED: &'static str = "■ ";

pub const MARKER_NONE: &'static str = "  ";

/// The first row at or after `from` that can hold the cursor.
pub fn next_navigable(tree: &[TreeNode], from: usize) -> (r: Option<usize>)
    ensures
        r == (if from < tree@.len() {
            Some(from)
        } else {
            None::<usize>
        }),
{
    if from < tree.len() && tree[from].kind.is_navigable() {
        Some(from)
    } else {
        None
    }
}

/// Rows after which a blank separator line may follow: alias rows,
/// profile headers and subcommand rows.
pub open spec fn ends_section(k: NodeKind) -> bool {
    k == NodeKind::AliasItem || k == NodeKind::ProfileHeader || k == NodeKind::SubcommandItem || k
        == NodeKind::SubcommandGroupNode || k == NodeKind::SubcommandProgramHeader
}

/// Rows that a separator line precedes.
pub open spec fn starts_section(k: NodeKind) -> bool {
    k == NodeKind::GlobalHeader || k == NodeKind::ProjectHeader || k == NodeKind::ProfileHeader || k
        == NodeKind::SubcommandProgramHeader
}

/// The rendered lines the first `n` rows take: one each, and one more
/// after a row that ends a section when the next row starts one.
pub open spec fn lines_of(kinds: Seq<NodeKind>, n: int) -> int
    decreases n,
{
    if n <= 0 {
        0
    } else {
        let i = n - 1;
        lines_of(kinds, i) + 1 + (if ends_section(kinds[i]) && i + 1 < kinds.len() && starts_section(
            kinds[i + 1],
        ) {
            1int
        } else {
            0
        })
    }
}

/// The kinds of the rows.
pub open spec fn kinds(tree: Seq<TreeNode>) -> Seq<NodeKind> {
    tree.map_values(|n: TreeNode| n.kind)
}

proof fn lemma_lines_bound(k: Seq<NodeKind>, n: int)
    requires
        0 <= n,
    ensures
        n <= lines_of(k, n) <= 2 * n,
    decreases n,
{
    if n > 0 {
        lemma_lines_bound(k, n - 1);
    }
}

fn ends_section_kind(k: NodeKind) -> (r: bool)
    ensures
        r == ends_section(k),
{
    match k {
        NodeKind::AliasItem | NodeKind::ProfileHeader | NodeKind::SubcommandItem | NodeKind::SubcommandGroupNode
        | NodeKind::SubcommandProgramHeader => true,
        _ => false,
    }
}

fn starts_section_kind(k: NodeKind) -> (r: bool)
    ensures
        r == starts_section(k),
{
    match k {
        NodeKind::GlobalHeader | NodeKind::ProjectHeader | NodeKind::ProfileHeader
        | NodeKind::SubcommandProgramHeader => true,
        _ => false,
    }
}

/// The rendered line the cursor row starts on.
pub fn estimate_line_for_cursor(tree: &[TreeNode], cursor: usize) -> (r: usize)
    requires
        2 * tree@.len() <= usize::MAX,
    ensures
        r == lines_of(kinds(tree@), if cursor < tree@.len() {
            cursor as int
        } else {
            tree@.len() as int
        }),
{
    let n = if cursor < tree.len() {
        cursor
    } else {
        tree.len()
    };
    let ghost k = kinds(tree@);
    let mut line: usize = 0;
    let mut i: usize = 0;
    while i < n
        invariant
            i <= n,
            n <= tree@.len(),
            2 * tree@.len() <= usize::MAX,
            k == kinds(tree@),
            line == lines_of(k, i as int),
        decreases n - i,
    {
        proof {
            lemma_lines_bound(k, i + 1);
        }
        line = line + 1;
        if ends_section_kind(tree[i].kind) && i + 1 < tree.len() && starts_section_kind(tree[i + 1].kind) {
            line = line + 1;
        }
        i = i + 1;
    }
    line
}

/// The scroll offset that keeps the cursor line in view with one line of
/// padding: up to just above it when too close to the top, down to just
/// below it when too close to the bottom, else unchanged.
pub open spec fn scrolled(offset: int, cursor_line: int, visible: int) -> int {
    if cursor_line < offset + 1 {
        if cursor_line >= 1 {
            cursor_line - 1
        } else {
            0
        }
    } else if cursor_line + 1 >= offset + visible {
        if cursor_line + 2 >= visible {
            cursor_line + 2 - visible
        } else {
            0
        }
    } else {
        offset
    }
}

/// The new scroll offset for a cursor on `cursor_line`.
pub fn adjust_scroll(scroll_offset: usize, cursor_line: usize, visible_height: usize) -> (r: usize)
    requires
        scroll_offset + 1 <= usize::MAX,
        cursor_line + 2 <= usize::MAX,
        scroll_offset + visible_height <= usize::MAX,
    ensures
        r == scrolled(scroll_offset as int, cursor_line as int, visible_height as int),
{
    if cursor_line < scroll_offset + 1 {
        cursor_line.saturating_sub(1)
    } else if cursor_line + 1 >= scroll_offset + visible_height {
        let target = cursor_line + 2;
        target.saturating_sub(visible_height)
    } else {
        scroll_offset
    }
}

/// The state of the terminal interface: the alias stores it edits, the
/// active profiles, the project's trust, the two trees with their cursors,
/// the selection, the mode and the status line.
#[derive(Debug)]
pub struct TuiModel {
    pub stores: AliasStores,
    pub active_profiles: Vec<String>,
    pub project_trust: Option<ProjectTrustState>,
    pub tree: Vec<TreeNode>,
    pub cursor: usize,
    pub selected: Vec<AliasId>,
    pub mode: Mode,
    pub dest_tree: Vec<TreeNode>,
    pub dest_cursor: usize,
    pub active_column: Column,
    pub scroll_offset: usize,
    pub status_line: Option<String>,
}

/// The rows of the alias tree over the stores.
pub open spec fn tree_of(st: AliasStores, active: Seq<Seq<char>>, trust: Option<ProjectTrustState>) -> Seq<NodeSpec> {
    tree_rows(
        st.config.aliases.pairs(),
        st.profiles.profiles@,
        active,
        match st.project {
            Some(p) => Some(p.aliases.pairs()),
            None => None,
        },
        trust,
    )
}

/// The rows of the destination tree; the project is a destination only
/// when it is trusted.
pub open spec fn dest_tree_of(st: AliasStores, active: Seq<Seq<char>>, trust: Option<ProjectTrustState>) -> Seq<
    NodeSpec,
> {
    dest_rows(st.profiles.profiles@, active, trust == Some(ProjectTrustState::Trusted))
}

/// The alias tree over the stores.
pub fn build_tree(stores: &AliasStores, active_profiles: &[String], project_trust: Option<ProjectTrustState>) -> (r: Vec<
    TreeNode,
>)
    ensures
        nodes_view(r@) == tree_of(*stores, views(active_profiles@), project_trust),
{
    build_tree_from_parts(
        &stores.config.aliases,
        &stores.profiles,
        active_profiles,
        match &stores.project {
            Some(p) => Some(p),
            None => None,
        },
        project_trust,
    )
}

/// The destination tree over the stores.
pub fn build_dest_tree(stores: &AliasStores, active_profiles: &[String], project_trust: Option<ProjectTrustState>) -> (r:
    Vec<TreeNode>)
    ensures
        nodes_view(r@) == dest_tree_of(*stores, views(active_profiles@), project_trust),
{
    let trusted = match project_trust {
        Some(ProjectTrustState::Trusted) => true,
        _ => false,
    };
    build_dest_tree_from_parts(&stores.config.aliases, &stores.profiles, active_profiles, trusted)
}

/// The cursor after the tree was rebuilt: kept, or moved onto the last
/// row when the tree got shorter.
pub open spec fn clamped_cursor(cursor: int, len: int) -> int {
    if len > 0 && cursor >= len {
        len - 1
    } else {
        cursor
    }
}

impl TuiModel {
    /// The active profile names.
    pub open spec fn active_view(&self) -> Seq<Seq<char>> {
        views(self.active_profiles@)
    }

    /// The trees show the current stores, active profiles and trust.
    pub open spec fn trees_current(&self) -> bool {
        &&& nodes_view(self.tree@) == tree_of(self.stores, self.active_view(), self.project_trust)
        &&& nodes_view(self.dest_tree@) == dest_tree_of(self.stores, self.active_view(), self.project_trust)
    }

    /// A fresh interface over the stores: normal mode, cursors at the top,
    /// nothing selected.
    pub fn new(stores: AliasStores, active_profiles: Vec<String>, project_trust: Option<ProjectTrustState>) -> (r: Self)
        ensures
            r.stores == stores,
            r.active_profiles@ == active_profiles@,
            r.project_trust == project_trust,
            r.trees_current(),
            r.cursor == 0,
            r.dest_cursor == 0,
            r.selected@.len() == 0,
            r.mode is Normal,
            r.active_column == Column::Left,
            r.scroll_offset == 0,
            r.status_line is None,
    {
        let mut m = TuiModel {
            stores,
            active_profiles,
            project_trust,
            tree: Vec::new(),
            cursor: 0,
            selected: Vec::new(),
            mode: Mode::Normal,
            dest_tree: Vec::new(),
            dest_cursor: 0,
            active_column: Column::Left,
            scroll_offset: 0,
            status_line: None,
        };
        m.rebuild_tree();
        m
    }

    /// Rebuilds both trees from the stores and keeps the cursor on a row.
    pub fn rebuild_tree(&mut self)
        ensures
            final(self).trees_current(),
            final(self).cursor == clamped_cursor(old(self).cursor as int, final(self).tree@.len() as int),
            final(self).stores == old(self).stores,
            final(self).active_profiles == old(self).active_profiles,
            final(self).project_trust == old(self).project_trust,
            final(self).selected == old(self).selected,
            final(self).mode == old(self).mode,
            final(self).dest_cursor == old(self).dest_cursor,
            final(self).active_column == old(self).active_column,
            final(self).scroll_offset == old(self).scroll_offset,
            final(self).status_line == old(self).status_line,
    {
        self.tree = build_tree(&self.stores, self.active_profiles.as_slice(), self.project_trust);
        self.dest_tree = build_dest_tree(&self.stores, self.active_profiles.as_slice(), self.project_trust);
        if self.tree.len() > 0 {
            if self.cursor >= self.tree.len() {
                self.cursor = self.tree.len() - 1;
            }
            self.cursor = match next_navigable(self.tree.as_slice(), self.cursor) {
                Some(i) => i,
                None => 0,
            };
        }
    }

    /// The first row at or after `from` in the column that has the cursor.
    pub fn next_navigable(&self, from: usize) -> (r: Option<usize>)
        ensures
            r == (if from < (match self.active_column {
                Column::Left => self.tree@.len(),
                Column::Right => self.dest_tree@.len(),
            }) {
                Some(from)
            } else {
                None::<usize>
            }),
    {
        match self.active_column {
            Column::Left => next_navigable(self.tree.as_slice(), from),
            Column::Right => next_navigable(self.dest_tree.as_slice(), from),
        }
    }

    /// The rendered line the cursor of the alias tree starts on.
    pub fn estimate_line_for_cursor(&self) -> (r: usize)
        requires
            2 * self.tree@.len() <= usize::MAX,
        ensures
            r == lines_of(kinds(self.tree@), if self.cursor < self.tree@.len() {
                self.cursor as int
            } else {
                self.tree@.len() as int
            }),
    {
        estimate_line_for_cursor(self.tree.as_slice(), self.cursor)
    }

    /// Scrolls so that the cursor line stays in view.
    pub fn adjust_scroll(&mut self, visible_height: usize)
        requires
            2 * old(self).tree@.len() + 2 <= usize::MAX,
            old(self).scroll_offset + visible_height <= usize::MAX,
            old(self).scroll_offset + 1 <= usize::MAX,
        ensures
            final(self).scroll_offset == scrolled(
                old(self).scroll_offset as int,
                lines_of(kinds(old(self).tree@), if old(self).cursor < old(self).tree@.len() {
                    old(self).cursor as int
                } else {
                    old(self).tree@.len() as int
                }),
                visible_height as int,
            ),
            final(self).tree == old(self).tree,
            final(self).cursor == old(self).cursor,
    {
        let line = self.estimate_line_for_cursor();
        proof {
            lemma_lines_bound(kinds(self.tree@), if self.cursor < self.tree@.len() {
                self.cursor as int
            } else {
                self.tree@.len() as int
            });
        }
        self.scroll_offset = adjust_scroll(self.scroll_offset, line, visible_height);
    }
}

} // verus!

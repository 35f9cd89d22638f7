use amoxide::tui::input::{
    InputEvent, InputResolver, KeyCode, KeyPress, IDLE_TIMEOUT_MS, SEQUENCE_DEADLINE_MS,
};
use amoxide::tui::model::{
    adjust_scroll, estimate_line_for_cursor, next_navigable, AliasTarget, Mode, NodeKind,
    SubcommandField, TextInputState, TreeNode, TuiMessage, TREE_BRANCH, TREE_LAST, TREE_TRUNK,
};
use amoxide::tui::tree::{build_dest_tree_from_parts, build_tree_from_parts, ProjectTrustState};
use amoxide::{AliasId, AliasName, Config, Profile, ProfileConfig, ProjectAliases, TomlAlias};

// ─── model ─────────────────────────────────────────────────────

#[test]
fn subcommand_node_kinds_exist() {
    let _ = NodeKind::SubcommandProgramHeader;
    let _ = NodeKind::SubcommandGroupNode;
    let _ = NodeKind::SubcommandItem;
    let f: SubcommandField = SubcommandField::Short;
    assert_eq!(f, SubcommandField::Short);
}

#[test]
fn subcommand_input_state_exists() {
    let _ = TextInputState::SubcommandInput {
        program: "jj".into(),
        pairs: vec![("ab".into(), "abandon".into())],
        active_pair: 0,
        active_field: SubcommandField::Long,
        cursor: 0,
        target: AliasTarget::Global,
        original_key: None,
    };
}

#[test]
fn tui_message_variants_exist() {
    let _ = TuiMessage::TextInputSwitchFieldBack;
    let _ = TuiMessage::TextInputCursorLeft;
    let _ = TuiMessage::TextInputCursorRight;
}

#[test]
fn node_kind_selectable_and_navigable() {
    assert!(NodeKind::AliasItem.is_selectable());
    assert!(NodeKind::SubcommandItem.is_selectable());
    assert!(!NodeKind::GlobalHeader.is_selectable());
    assert!(!NodeKind::ProfileHeader.is_selectable());
    assert!(NodeKind::ProjectHeader.is_navigable());
}

// ─── input ─────────────────────────────────────────────────────

fn press(c: char) -> InputEvent {
    InputEvent::Key(KeyPress { code: KeyCode::Char(c), control: false })
}

fn normal() -> Mode {
    Mode::Normal
}

#[test]
fn feed_normal_key_passes_through() {
    let mut r = InputResolver::default();
    let msgs = r.feed(&press('j'), &normal(), 0);
    assert_eq!(msgs, vec![TuiMessage::CursorDown]);
}

#[test]
fn feed_unrecognised_key_returns_empty() {
    let mut r = InputResolver::default();
    let msgs = r.feed(&press('z'), &normal(), 0);
    assert!(msgs.is_empty());
}

#[test]
fn feed_use_profile_starts_sequence_returns_empty() {
    let mut r = InputResolver::default();
    let msgs = r.feed(&press('u'), &normal(), 0);
    assert!(msgs.is_empty(), "u should be held pending");
}

#[test]
fn feed_u_then_digit_resolves_to_priority() {
    let mut r = InputResolver::default();
    r.feed(&press('u'), &normal(), 0);
    let msgs = r.feed(&press('3'), &normal(), 10);
    assert_eq!(msgs, vec![TuiMessage::UseProfileWithPriority(3)]);
}

#[test]
fn feed_u_then_non_digit_flushes_pending_and_new() {
    let mut r = InputResolver::default();
    r.feed(&press('u'), &normal(), 0);
    let msgs = r.feed(&press('j'), &normal(), 10);
    assert_eq!(msgs, vec![TuiMessage::UseProfile, TuiMessage::CursorDown]);
}

#[test]
fn feed_u_then_u_flushes_first_starts_new_sequence() {
    let mut r = InputResolver::default();
    r.feed(&press('u'), &normal(), 0);
    let msgs = r.feed(&press('u'), &normal(), 10);
    assert_eq!(msgs, vec![TuiMessage::UseProfile], "first u flushed");

    let msgs = r.flush();
    assert_eq!(msgs, vec![TuiMessage::UseProfile], "second u flushed on timeout");
}

#[test]
fn feed_u_then_digit_clears_pending() {
    let mut r = InputResolver::default();
    r.feed(&press('u'), &normal(), 0);
    r.feed(&press('3'), &normal(), 10);
    let msgs = r.flush();
    assert!(msgs.is_empty());
}

#[test]
fn flush_with_pending_returns_message() {
    let mut r = InputResolver::default();
    r.feed(&press('u'), &normal(), 0);
    let msgs = r.flush();
    assert_eq!(msgs, vec![TuiMessage::UseProfile]);
}

#[test]
fn flush_without_pending_returns_empty() {
    let mut r = InputResolver::default();
    let msgs = r.flush();
    assert!(msgs.is_empty());
}

#[test]
fn flush_drains_pending() {
    let mut r = InputResolver::default();
    r.feed(&press('u'), &normal(), 0);
    r.flush();
    let msgs = r.flush();
    assert!(msgs.is_empty(), "second flush should be empty");
}

#[test]
fn poll_timeout_idle_returns_long_duration() {
    let r = InputResolver::default();
    assert_eq!(r.poll_timeout(0), IDLE_TIMEOUT_MS);
}

#[test]
fn poll_timeout_with_pending_returns_short_duration() {
    let mut r = InputResolver::default();
    r.feed(&press('u'), &normal(), 1000);
    let t = r.poll_timeout(1000);
    assert!(t <= SEQUENCE_DEADLINE_MS, "should be at most {SEQUENCE_DEADLINE_MS}, got {t}");
    assert!(t > 0, "should be non-zero immediately after feed");
}

#[test]
fn poll_timeout_counts_down_to_zero() {
    let mut r = InputResolver::default();
    r.feed(&press('u'), &normal(), 1000);
    assert_eq!(r.poll_timeout(1100), 200);
    assert_eq!(r.poll_timeout(2000), 0);
}

#[test]
fn keys_by_mode() {
    let mut r = InputResolver::default();
    let ctrl_c = InputEvent::Key(KeyPress { code: KeyCode::Char('c'), control: true });
    assert_eq!(r.feed(&ctrl_c, &normal(), 0), vec![TuiMessage::Quit]);
    let text = Mode::TextInput(TextInputState::NewProfile(String::new()));
    assert_eq!(r.feed(&press('j'), &text, 0), vec![TuiMessage::TextInputChar('j')]);
    let confirm = Mode::Confirm(amoxide::tui::model::ConfirmAction::DeleteProfile("p".into()));
    assert_eq!(r.feed(&press('Y'), &confirm, 0), vec![TuiMessage::ConfirmYes]);
    assert_eq!(r.feed(&InputEvent::Resize(80, 24), &normal(), 0), vec![TuiMessage::Resize(80, 24)]);
    assert!(r.feed(&InputEvent::Other, &normal(), 0).is_empty());
    assert_eq!(r.feed(&press('9'), &normal(), 0), vec![TuiMessage::UseProfileWithPriority(9)]);
}

// ─── tree ──────────────────────────────────────────────────────

struct TestConfigBuilder {
    config: Config,
    profiles: Vec<Profile>,
    project: Option<ProjectAliases>,
    active_profiles: Vec<String>,
}

impl TestConfigBuilder {
    fn new() -> Self {
        Self { config: Config::default(), profiles: Vec::new(), project: None, active_profiles: Vec::new() }
    }

    fn global_alias(mut self, name: &str, cmd: &str) -> Self {
        self.config.add_alias(name.into(), cmd.into(), false);
        self
    }

    fn profile(mut self, name: &str) -> Self {
        self.profiles.push(Profile::new(name.into()));
        self
    }

    fn alias(mut self, name: &str, cmd: &str) -> Self {
        let p = self.profiles.last_mut().unwrap();
        p.aliases.insert(AliasName::from(name), TomlAlias::Command(cmd.into()));
        self
    }

    fn project_alias(mut self, name: &str, cmd: &str) -> Self {
        self.project
            .get_or_insert_with(ProjectAliases::default)
            .add_alias(name.into(), cmd.into(), false);
        self
    }

    fn active(mut self, names: &[&str]) -> Self {
        self.active_profiles = names.iter().map(|s| s.to_string()).collect();
        self
    }

    fn profile_config(&self) -> ProfileConfig {
        let mut pc = ProfileConfig::default();
        for p in &self.profiles {
            let mut q = Profile::new(p.name.clone());
            for (n, a) in p.aliases.iter() {
                q.aliases.insert(n.clone(), a.clone());
            }
            pc.profiles.push(q);
        }
        pc
    }

    fn build_tree(&self) -> Vec<TreeNode> {
        build_tree_from_parts(
            &self.config.aliases,
            &self.profile_config(),
            &self.active_profiles,
            self.project.as_ref(),
            None,
        )
    }

    fn build_dest_tree(&self) -> Vec<TreeNode> {
        build_dest_tree_from_parts(
            &self.config.aliases,
            &self.profile_config(),
            &self.active_profiles,
            self.project.is_some(),
        )
    }
}

#[test]
fn test_build_tree_empty() {
    let tree = TestConfigBuilder::new().build_tree();
    assert_eq!(tree.len(), 1);
    assert_eq!(tree[0].kind, NodeKind::GlobalHeader);
    assert_eq!(tree[0].prefix, "");
}

#[test]
fn test_build_tree_global_only() {
    let tree = TestConfigBuilder::new().global_alias("ll", "ls -lha").build_tree();
    assert_eq!(tree.len(), 2);
    assert_eq!(tree[0].kind, NodeKind::GlobalHeader);
    assert_eq!(tree[1].kind, NodeKind::AliasItem);
    assert_eq!(tree[1].label, "ll");
    assert_eq!(tree[1].alias_id, Some(AliasId::Global { alias_name: "ll".into() }));
}

#[test]
fn test_build_tree_active_profiles_appear_in_active_zone() {
    let tree = TestConfigBuilder::new()
        .profile("git")
        .alias("gs", "git status")
        .profile("rust")
        .alias("ct", "cargo test")
        .active(&["rust", "git"])
        .build_tree();

    let headers: Vec<_> = tree.iter().filter(|n| n.kind == NodeKind::ProfileHeader).collect();
    assert_eq!(headers.len(), 2);
    assert_eq!(headers[0].label, "rust");
    assert_eq!(headers[1].label, "git");
    assert!(headers[0].is_active);
    assert!(headers[1].is_active);
}

#[test]
fn test_build_tree_inactive_profiles_have_no_connectors() {
    let tree = TestConfigBuilder::new()
        .profile("git")
        .alias("gs", "git status")
        .profile("rust")
        .alias("ct", "cargo test")
        .build_tree();

    let headers: Vec<_> = tree.iter().filter(|n| n.kind == NodeKind::ProfileHeader).collect();
    assert_eq!(headers.len(), 2);
    for h in &headers {
        assert!(!h.is_active, "profile {} should be inactive", h.label);
        assert_eq!(h.prefix, "", "inactive profile should have no connector prefix");
    }
}

#[test]
fn test_build_tree_with_project() {
    let tree = TestConfigBuilder::new().project_alias("t", "./x.py test").build_tree();
    let headers: Vec<_> = tree.iter().filter(|n| n.kind == NodeKind::ProjectHeader).collect();
    assert_eq!(headers.len(), 1);
    let aliases: Vec<_> = tree.iter().filter(|n| n.kind == NodeKind::AliasItem).collect();
    assert_eq!(aliases.len(), 1);
    assert_eq!(aliases[0].alias_id, Some(AliasId::Project { alias_name: "t".into() }));
}

#[test]
fn test_build_tree_ordering_global_active_project_inactive() {
    let tree = TestConfigBuilder::new()
        .global_alias("ll", "ls -lha")
        .project_alias("t", "cargo test")
        .profile("rust")
        .profile("node")
        .active(&["rust"])
        .build_tree();
    let header_labels: Vec<_> = tree
        .iter()
        .filter(|n| {
            matches!(n.kind, NodeKind::GlobalHeader | NodeKind::ProjectHeader | NodeKind::ProfileHeader)
        })
        .map(|n| n.label.as_str())
        .collect();
    assert_eq!(header_labels, vec!["global", "rust", "project (.aliases)", "node"]);
}

#[test]
fn test_build_tree_active_profiles_have_trunk_connectors() {
    let tree = TestConfigBuilder::new()
        .global_alias("ll", "ls -lha")
        .profile("rust")
        .active(&["rust"])
        .build_tree();

    let rust =
        tree.iter().find(|n| n.kind == NodeKind::ProfileHeader && n.label == "rust").unwrap();
    assert_eq!(rust.prefix, TREE_LAST);
    assert!(rust.is_active);

    let ll = tree.iter().find(|n| n.label == "ll").unwrap();
    assert_eq!(ll.content_prefix, TREE_TRUNK);
}

#[test]
fn test_build_tree_multiple_active_profiles() {
    let tree = TestConfigBuilder::new()
        .profile("git")
        .alias("gs", "git status")
        .profile("rust")
        .alias("ct", "cargo test")
        .profile("node")
        .alias("b", "npm run build")
        .active(&["git", "rust"])
        .build_tree();

    let git = tree.iter().find(|n| n.kind == NodeKind::ProfileHeader && n.label == "git").unwrap();
    let rust =
        tree.iter().find(|n| n.kind == NodeKind::ProfileHeader && n.label == "rust").unwrap();
    let node =
        tree.iter().find(|n| n.kind == NodeKind::ProfileHeader && n.label == "node").unwrap();

    assert_eq!(git.prefix, TREE_BRANCH);
    assert!(git.is_active);
    assert_eq!(rust.prefix, TREE_LAST);
    assert!(rust.is_active);
    assert_eq!(node.prefix, "");
    assert!(!node.is_active);
}

#[test]
fn test_build_tree_active_with_project() {
    let tree = TestConfigBuilder::new()
        .project_alias("t", "cargo test")
        .profile("rust")
        .active(&["rust"])
        .build_tree();

    let rust =
        tree.iter().find(|n| n.kind == NodeKind::ProfileHeader && n.label == "rust").unwrap();
    assert_eq!(rust.prefix, TREE_BRANCH);

    let proj = tree.iter().find(|n| n.kind == NodeKind::ProjectHeader).unwrap();
    assert_eq!(proj.prefix, TREE_LAST);
}

#[test]
fn test_build_dest_tree_headers_only() {
    let dest = TestConfigBuilder::new()
        .project_alias("t", "cargo test")
        .profile("git")
        .alias("gs", "git status")
        .profile("rust")
        .active(&["git"])
        .build_dest_tree();
    assert!(dest.iter().all(|n| n.kind != NodeKind::AliasItem));
    let headers: Vec<_> = dest.iter().filter(|n| n.kind == NodeKind::ProfileHeader).collect();
    assert_eq!(headers.len(), 2);
}

#[test]
fn test_build_dest_tree_active_before_inactive() {
    let dest = TestConfigBuilder::new()
        .profile("git")
        .profile("rust")
        .profile("node")
        .active(&["rust"])
        .build_dest_tree();
    let profile_labels: Vec<_> = dest
        .iter()
        .filter(|n| n.kind == NodeKind::ProfileHeader)
        .map(|n| n.label.as_str())
        .collect();
    assert_eq!(profile_labels, vec!["rust", "git", "node"]);
}

#[test]
fn project_header_label_reflects_trust_state() {
    let aliases = TestConfigBuilder::new();
    let tree = build_tree_from_parts(
        &aliases.config.aliases,
        &ProfileConfig::default(),
        &[],
        None,
        Some(ProjectTrustState::Unknown),
    );
    let project_node = tree.iter().find(|n| n.kind == NodeKind::ProjectHeader);
    assert!(project_node.is_some());
    let label = &project_node.unwrap().label;
    assert!(
        label.contains("untrusted") || label.contains("trust"),
        "expected trust hint in label, got: {label}"
    );
    assert_eq!(project_node.unwrap().project_trust, Some(ProjectTrustState::Unknown));
}

#[test]
fn tree_global_alias_closes_zone_alone() {
    let tree = TestConfigBuilder::new().global_alias("a", "x").global_alias("b", "y").build_tree();
    assert_eq!(tree[1].content_prefix, TREE_TRUNK);
    assert_eq!(tree[2].content_prefix, "  ");
    assert_eq!(tree[2].alias_command.as_deref(), Some("y"));
}

#[test]
fn tree_unknown_active_profile_is_skipped() {
    let tree = TestConfigBuilder::new().profile("rust").active(&["nope", "rust"]).build_tree();
    let labels: Vec<_> = tree.iter().map(|n| n.label.as_str()).collect();
    assert_eq!(labels, vec!["global", "rust"]);
    assert_eq!(tree[1].content_prefix, "    ");
}

// ─── navigation and scrolling ─────────────────────────────────

#[test]
fn navigation_and_line_estimate() {
    let tree = TestConfigBuilder::new()
        .global_alias("ll", "ls -lha")
        .profile("rust")
        .alias("ct", "cargo test")
        .build_tree();
    // global, ll, rust, ct
    assert_eq!(next_navigable(&tree, 1), Some(1));
    assert_eq!(next_navigable(&tree, 4), None);
    assert_eq!(estimate_line_for_cursor(&tree, 0), 0);
    assert_eq!(estimate_line_for_cursor(&tree, 1), 1);
    // ll is followed by the rust header: one separator line
    assert_eq!(estimate_line_for_cursor(&tree, 2), 3);
    assert_eq!(estimate_line_for_cursor(&tree, 3), 4);
    assert_eq!(estimate_line_for_cursor(&tree, 99), 5);
}

#[test]
fn scroll_follows_cursor() {
    assert_eq!(adjust_scroll(10, 5, 20), 4);
    assert_eq!(adjust_scroll(10, 0, 20), 0);
    assert_eq!(adjust_scroll(0, 19, 20), 1);
    assert_eq!(adjust_scroll(0, 10, 20), 0);
}

// ─── text input cursor ─────────────────────────────────────────

use amoxide::tui::text_input::{active_field_len, cursor_left, cursor_right};

#[test]
fn cursor_moves_by_characters() {
    let s = "aé€😀b";
    // byte offsets: a=0, é=1, €=3, 😀=6, b=10, end=11
    assert_eq!(cursor_right(s, 0), 1);
    assert_eq!(cursor_right(s, 1), 3);
    assert_eq!(cursor_right(s, 3), 6);
    assert_eq!(cursor_right(s, 6), 10);
    assert_eq!(cursor_right(s, 10), 11);
    assert_eq!(cursor_right(s, 11), 11);
    assert_eq!(cursor_left(s, 11), 10);
    assert_eq!(cursor_left(s, 10), 6);
    assert_eq!(cursor_left(s, 6), 3);
    assert_eq!(cursor_left(s, 1), 0);
    assert_eq!(cursor_left(s, 0), 0);
}

#[test]
fn active_field_len_picks_field() {
    let pairs = vec![("ab".to_string(), "abandon".to_string()), ("é".to_string(), String::new())];
    assert_eq!(active_field_len(&pairs, 0, &SubcommandField::Short), 2);
    assert_eq!(active_field_len(&pairs, 0, &SubcommandField::Long), 7);
    assert_eq!(active_field_len(&pairs, 1, &SubcommandField::Short), 2);
    assert_eq!(active_field_len(&pairs, 5, &SubcommandField::Long), 0);
}

// ─── transfer ──────────────────────────────────────────────────

use amoxide::tui::model::MoveDestination;
use amoxide::tui::transfer::{alias_exists_at_dest, is_same_source, transfer_single_alias, AliasStores};

fn stores() -> AliasStores {
    let mut config = Config::default();
    config.add_alias("ll".into(), "ls -lha".into(), false);
    let mut rust = Profile::new("rust".into());
    rust.aliases.insert(
        AliasName::from("ct"),
        TomlAlias::Detailed(amoxide::AliasDetail {
            command: "cargo test".into(),
            description: Some("run tests".into()),
            raw: true,
        }),
    );
    AliasStores { config, profiles: ProfileConfig { profiles: vec![rust, Profile::new("node".into())] }, project: None }
}

#[test]
fn same_source_cases() {
    let g = AliasId::Global { alias_name: "ll".into() };
    let p = AliasId::Profile { profile_name: "rust".into(), alias_name: "ct".into() };
    assert!(is_same_source(&g, &MoveDestination::Global));
    assert!(!is_same_source(&g, &MoveDestination::Project));
    assert!(is_same_source(&p, &MoveDestination::Profile("rust".into())));
    assert!(!is_same_source(&p, &MoveDestination::Profile("node".into())));
}

#[test]
fn move_profile_alias_to_global_keeps_raw_drops_description() {
    let mut st = stores();
    let p = AliasId::Profile { profile_name: "rust".into(), alias_name: "ct".into() };
    transfer_single_alias(&mut st, &p, &MoveDestination::Global, true);
    assert!(st.profiles.profiles[0].aliases.get_str("ct").is_none());
    match st.config.aliases.get_str("ct").unwrap() {
        TomlAlias::Detailed(d) => {
            assert_eq!(d.command, "cargo test");
            assert!(d.raw);
            assert_eq!(d.description, None);
        }
        other => panic!("expected the table form, got {other:?}"),
    }
}

#[test]
fn copy_global_alias_to_new_project_and_profile() {
    let mut st = stores();
    let g = AliasId::Global { alias_name: "ll".into() };
    transfer_single_alias(&mut st, &g, &MoveDestination::Project, false);
    assert!(st.config.aliases.get_str("ll").is_some());
    let proj = st.project.as_ref().unwrap();
    assert_eq!(proj.aliases.get_str("ll").unwrap().command(), "ls -lha");
    transfer_single_alias(&mut st, &g, &MoveDestination::Profile("node".into()), false);
    assert!(alias_exists_at_dest(&st, &g, &MoveDestination::Profile("node".into())));
    assert!(!alias_exists_at_dest(&st, &g, &MoveDestination::Profile("nope".into())));
    // a missing source does nothing
    let missing = AliasId::Global { alias_name: "zz".into() };
    transfer_single_alias(&mut st, &missing, &MoveDestination::Project, true);
    assert!(st.project.as_ref().unwrap().aliases.get_str("zz").is_none());
}

use amoxide::alias::AliasName;
use amoxide::alias_id::{AliasId, SubcommandScope};
use amoxide::config::Config;
use amoxide::profile::{Profile, ProfileConfig};
use amoxide::project::make_alias;
use amoxide::subcommand::TomlSubcommand;
use amoxide::tui::model::{
    AliasField, AliasTarget, Column, ConfirmAction, Mode, NodeKind, SubcommandField, TextInputState, TransferMode,
    TreeNode, TuiMessage, TuiModel,
};
use amoxide::tui::transfer::AliasStores;
use amoxide::tui::tree::ProjectTrustState;
use amoxide::tui::update::{update, TuiRequest};

/// A model over profiles given as (name, [(alias, command)]), none active.
fn test_model(profiles: &[(&str, &[(&str, &str)])]) -> TuiModel {
    let mut pc = ProfileConfig::default();
    for (name, aliases) in profiles {
        let mut p = Profile::new(name.to_string());
        for (n, c) in aliases.iter() {
            p.aliases.insert(AliasName::new(n), make_alias(c.to_string(), false));
        }
        pc.profiles.push(p);
    }
    let stores = AliasStores { config: Config::default(), profiles: pc, project: None };
    TuiModel::new(stores, Vec::new(), None)
}

fn row(kind: NodeKind, label: &str, alias_id: Option<AliasId>) -> TreeNode {
    TreeNode {
        kind,
        alias_id,
        alias_command: None,
        is_active: false,
        label: label.to_string(),
        prefix: String::new(),
        content_prefix: String::new(),
        project_trust: None,
    }
}

/// A model whose global scope holds the given subcommand aliases, with
/// their rows (program header, groups, items) after the tree's rows.
fn make_subcmd_model(keys: &[(&str, &[&str])]) -> TuiModel {
    let mut model = test_model(&[]);
    for (key, longs) in keys {
        model
            .stores
            .config
            .subcommands
            .insert(key.to_string(), TomlSubcommand::Expansion(longs.iter().map(|s| s.to_string()).collect()));
    }
    model.rebuild_tree();
    let mut last_program = String::new();
    for (key, longs) in keys {
        let parts: Vec<&str> = key.split(':').collect();
        if parts[0] != last_program {
            model.tree.push(row(NodeKind::SubcommandProgramHeader, parts[0], None));
            last_program = parts[0].to_string();
        }
        let groups = &parts[1..parts.len() - 1];
        for (depth, group) in groups.iter().enumerate() {
            let mut node = row(NodeKind::SubcommandGroupNode, group, None);
            node.prefix = "  ".repeat(depth + 1);
            model.tree.push(node);
        }
        let label = format!("{} \u{2192} {}", parts[parts.len() - 1], longs.join(" "));
        let id = AliasId::Subcommand { scope: SubcommandScope::Global, key: key.to_string() };
        let mut item = row(NodeKind::SubcommandItem, &label, Some(id));
        item.prefix = "  ".repeat(groups.len() + 1);
        model.tree.push(item);
    }
    model
}

#[test]
fn mod_test_cursor_down_moves_to_next_navigable() {
    let mut model = test_model(&[("git", &[("gs", "git status"), ("gp", "git push")])]);
    update(&mut model, TuiMessage::CursorDown);
    assert_eq!(model.cursor, 1);
}

#[test]
fn mod_test_cursor_up_at_top_stays() {
    let mut model = test_model(&[("git", &[])]);
    model.cursor = 0;
    update(&mut model, TuiMessage::CursorUp);
    assert_eq!(model.cursor, 0);
}

#[test]
fn mod_test_cursor_down_at_bottom_stays() {
    let mut model = test_model(&[("git", &[("gs", "git status")])]);
    let last = model.tree.len() - 1;
    model.cursor = last;
    update(&mut model, TuiMessage::CursorDown);
    assert_eq!(model.cursor, last);
}

#[test]
fn mod_test_toggle_select_on_alias() {
    let mut model = test_model(&[("git", &[("gs", "git status")])]);
    let alias_idx = model
        .tree
        .iter()
        .position(|n| n.kind == NodeKind::AliasItem)
        .unwrap();
    model.cursor = alias_idx;
    update(&mut model, TuiMessage::ToggleSelect);
    assert_eq!(model.selected.len(), 1);
    update(&mut model, TuiMessage::ToggleSelect);
    assert!(model.selected.is_empty());
}

#[test]
fn mod_test_toggle_select_on_header_is_noop() {
    let mut model = test_model(&[("git", &[("gs", "git status")])]);
    model.cursor = 0;
    update(&mut model, TuiMessage::ToggleSelect);
    assert!(model.selected.is_empty());
}

#[test]
fn mod_test_jump_top_and_bottom() {
    let mut model = test_model(&[("a", &[("x", "cmd1")]), ("b", &[("y", "cmd2")])]);
    update(&mut model, TuiMessage::JumpBottom);
    assert!(model.cursor > 0);
    update(&mut model, TuiMessage::JumpTop);
    assert_eq!(model.cursor, 0);
}

#[test]
fn mod_test_enter_move_mode_with_selection() {
    let mut model = test_model(&[("git", &[("gs", "git status")])]);
    let alias_idx = model
        .tree
        .iter()
        .position(|n| n.kind == NodeKind::AliasItem)
        .unwrap();
    model.cursor = alias_idx;
    update(&mut model, TuiMessage::ToggleSelect);
    update(&mut model, TuiMessage::EnterMoveMode);
    assert_eq!(model.mode, Mode::Transfer(TransferMode::Move));
    assert_eq!(model.active_column, Column::Right);
}

#[test]
fn mod_test_enter_move_mode_without_selection_is_noop() {
    let mut model = test_model(&[("git", &[("gs", "git status")])]);
    update(&mut model, TuiMessage::EnterMoveMode);
    assert_eq!(model.mode, Mode::Normal);
}

#[test]
fn mod_test_cancel_move_clears_selection() {
    let mut model = test_model(&[("git", &[("gs", "git status")])]);
    let alias_idx = model
        .tree
        .iter()
        .position(|n| n.kind == NodeKind::AliasItem)
        .unwrap();
    model.cursor = alias_idx;
    update(&mut model, TuiMessage::ToggleSelect);
    update(&mut model, TuiMessage::EnterMoveMode);
    update(&mut model, TuiMessage::CancelTransfer);
    assert_eq!(model.mode, Mode::Normal);
    assert!(model.selected.is_empty());
    assert_eq!(model.active_column, Column::Left);
}

#[test]
fn mod_test_switch_column_in_move_mode() {
    let mut model = test_model(&[("git", &[("gs", "git status")])]);
    let alias_idx = model
        .tree
        .iter()
        .position(|n| n.kind == NodeKind::AliasItem)
        .unwrap();
    model.cursor = alias_idx;
    update(&mut model, TuiMessage::ToggleSelect);
    update(&mut model, TuiMessage::EnterMoveMode);
    assert_eq!(model.active_column, Column::Right);
    update(&mut model, TuiMessage::SwitchColumn);
    assert_eq!(model.active_column, Column::Left);
    update(&mut model, TuiMessage::SwitchColumn);
    assert_eq!(model.active_column, Column::Right);
}

#[test]
fn mod_test_switch_column_in_normal_mode_is_noop() {
    let mut model = test_model(&[("git", &[])]);
    update(&mut model, TuiMessage::SwitchColumn);
    assert_eq!(model.active_column, Column::Left);
}

#[test]
fn mod_test_same_source_move_is_noop() {
    let mut model = test_model(&[("git", &[("gs", "git status")])]);
    let alias_idx = model
        .tree
        .iter()
        .position(|n| n.kind == NodeKind::AliasItem)
        .unwrap();
    model.cursor = alias_idx;
    update(&mut model, TuiMessage::ToggleSelect);
    update(&mut model, TuiMessage::EnterMoveMode);
    let git_idx = model
        .dest_tree
        .iter()
        .position(|n| n.label == "git")
        .unwrap();
    model.dest_cursor = git_idx;
    update(&mut model, TuiMessage::ExecuteTransfer);
    assert_eq!(model.mode, Mode::Normal);
    assert!(model
        .stores
        .profiles
        .get_profile_by_name("git")
        .unwrap()
        .aliases
        .iter()
        .any(|(n, _)| n.as_ref() == "gs"));
}

#[test]
fn mod_test_delete_alias() {
    let mut model = test_model(&[("git", &[("gs", "git status")])]);
    let alias_idx = model
        .tree
        .iter()
        .position(|n| n.kind == NodeKind::AliasItem)
        .unwrap();
    model.cursor = alias_idx;
    update(&mut model, TuiMessage::DeleteItem);
    assert!(model
        .stores
        .profiles
        .get_profile_by_name("git")
        .unwrap()
        .aliases
        .is_empty());
}

#[test]
fn mod_test_delete_profile_enters_confirm() {
    let mut model = test_model(&[("git", &[("gs", "git status")])]);
    let header_idx = model
        .tree
        .iter()
        .position(|n| n.kind == NodeKind::ProfileHeader && n.label == "git")
        .unwrap();
    model.cursor = header_idx;
    update(&mut model, TuiMessage::DeleteItem);
    assert_eq!(
        model.mode,
        Mode::Confirm(ConfirmAction::DeleteProfile("git".to_string()))
    );
}

#[test]
fn mod_test_confirm_yes_deletes_profile() {
    let mut model = test_model(&[("git", &[("gs", "git status")]), ("rust", &[("ct", "cargo test")])]);
    model.mode = Mode::Confirm(ConfirmAction::DeleteProfile("git".to_string()));
    update(&mut model, TuiMessage::ConfirmYes);
    assert_eq!(model.mode, Mode::Normal);
    assert_eq!(model.stores.profiles.profiles.len(), 1);
    assert!(model.stores.profiles.get_profile_by_name("git").is_none());
}

#[test]
fn mod_test_confirm_no_cancels_delete() {
    let mut model = test_model(&[("git", &[])]);
    model.mode = Mode::Confirm(ConfirmAction::DeleteProfile("git".to_string()));
    update(&mut model, TuiMessage::ConfirmNo);
    assert_eq!(model.mode, Mode::Normal);
    assert!(model.stores.profiles.get_profile_by_name("git").is_some());
}

#[test]
fn mod_test_start_create_profile_enters_text_input() {
    let mut model = test_model(&[]);
    update(&mut model, TuiMessage::StartCreateProfile);
    assert_eq!(
        model.mode,
        Mode::TextInput(TextInputState::NewProfile(String::new()))
    );
}

#[test]
fn mod_test_text_input_confirm_creates_profile() {
    let mut model = test_model(&[]);
    update(&mut model, TuiMessage::StartCreateProfile);
    for c in "newprof".chars() {
        update(&mut model, TuiMessage::TextInputChar(c));
    }
    update(&mut model, TuiMessage::TextInputConfirm);
    assert_eq!(model.mode, Mode::Normal);
    assert!(model.stores.profiles.get_profile_by_name("newprof").is_some());
}

#[test]
fn mod_test_text_input_cancel() {
    let mut model = test_model(&[]);
    update(&mut model, TuiMessage::StartCreateProfile);
    for c in "newprof".chars() {
        update(&mut model, TuiMessage::TextInputChar(c));
    }
    update(&mut model, TuiMessage::TextInputCancel);
    assert_eq!(model.mode, Mode::Normal);
    assert!(model.stores.profiles.get_profile_by_name("newprof").is_none());
}

#[test]
fn mod_test_text_input_empty_confirm_is_noop() {
    let mut model = test_model(&[]);
    update(&mut model, TuiMessage::StartCreateProfile);
    update(&mut model, TuiMessage::TextInputConfirm);
    assert_eq!(
        model.mode,
        Mode::TextInput(TextInputState::NewProfile(String::new()))
    );
    assert_eq!(model.stores.profiles.profiles.len(), 0);
}

#[test]
fn mod_test_toggle_active_profile() {
    let mut model = test_model(&[("git", &[]), ("rust", &[])]);
    let header_idx = model
        .tree
        .iter()
        .position(|n| n.kind == NodeKind::ProfileHeader && n.label == "rust")
        .unwrap();
    model.cursor = header_idx;
    update(&mut model, TuiMessage::UseProfile);
    assert!(model.active_profiles.contains(&"rust".to_string()));
    let header_idx = model
        .tree
        .iter()
        .position(|n| n.kind == NodeKind::ProfileHeader && n.label == "rust")
        .unwrap();
    model.cursor = header_idx;
    update(&mut model, TuiMessage::UseProfile);
    assert!(!model.active_profiles.contains(&"rust".to_string()));
}

#[test]
fn mod_test_use_profile_with_priority() {
    let mut model = test_model(&[("git", &[]), ("rust", &[])]);
    let header_idx = model
        .tree
        .iter()
        .position(|n| n.kind == NodeKind::ProfileHeader && n.label == "git")
        .unwrap();
    model.cursor = header_idx;
    update(&mut model, TuiMessage::UseProfile);
    assert!(model.active_profiles.contains(&"git".to_string()));
    let header_idx = model
        .tree
        .iter()
        .position(|n| n.kind == NodeKind::ProfileHeader && n.label == "rust")
        .unwrap();
    model.cursor = header_idx;
    update(&mut model, TuiMessage::UseProfileWithPriority(1));
    assert_eq!(
        model.active_profiles,
        vec!["rust".to_string(), "git".to_string()]
    );
}

#[test]
fn mod_test_enter_copy_mode_with_selection() {
    let mut model = test_model(&[("git", &[("gs", "git status")])]);
    let alias_idx = model
        .tree
        .iter()
        .position(|n| n.kind == NodeKind::AliasItem)
        .unwrap();
    model.cursor = alias_idx;
    update(&mut model, TuiMessage::ToggleSelect);
    update(&mut model, TuiMessage::EnterCopyMode);
    assert_eq!(model.mode, Mode::Transfer(TransferMode::Copy));
    assert_eq!(model.active_column, Column::Right);
}

#[test]
fn mod_test_copy_preserves_source() {
    let mut model = test_model(&[("git", &[("gs", "git status")]), ("rust", &[])]);
    let alias_idx = model
        .tree
        .iter()
        .position(|n| n.kind == NodeKind::AliasItem)
        .unwrap();
    model.cursor = alias_idx;
    update(&mut model, TuiMessage::ToggleSelect);
    update(&mut model, TuiMessage::EnterCopyMode);
    let rust_idx = model
        .dest_tree
        .iter()
        .position(|n| n.label == "rust")
        .unwrap();
    model.dest_cursor = rust_idx;
    update(&mut model, TuiMessage::ExecuteTransfer);
    assert!(model
        .stores
        .profiles
        .get_profile_by_name("git")
        .unwrap()
        .aliases
        .iter()
        .any(|(n, _)| n.as_ref() == "gs"));
    assert!(model
        .stores
        .profiles
        .get_profile_by_name("rust")
        .unwrap()
        .aliases
        .iter()
        .any(|(n, _)| n.as_ref() == "gs"));
}

#[test]
fn mod_test_copy_same_source_is_noop() {
    let mut model = test_model(&[("git", &[("gs", "git status")])]);
    let alias_idx = model
        .tree
        .iter()
        .position(|n| n.kind == NodeKind::AliasItem)
        .unwrap();
    model.cursor = alias_idx;
    update(&mut model, TuiMessage::ToggleSelect);
    update(&mut model, TuiMessage::EnterCopyMode);
    let git_idx = model
        .dest_tree
        .iter()
        .position(|n| n.label == "git")
        .unwrap();
    model.dest_cursor = git_idx;
    update(&mut model, TuiMessage::ExecuteTransfer);
    assert_eq!(model.mode, Mode::Normal);
}

#[test]
fn mod_test_edit_profile_enters_text_input() {
    let mut model = test_model(&[("git", &[])]);
    let header_idx = model
        .tree
        .iter()
        .position(|n| n.kind == NodeKind::ProfileHeader && n.label == "git")
        .unwrap();
    model.cursor = header_idx;
    update(&mut model, TuiMessage::EditItem);
    assert_eq!(
        model.mode,
        Mode::TextInput(TextInputState::EditProfile {
            original_name: "git".to_string(),
            name: "git".to_string(),
            error: None,
        })
    );
}

#[test]
fn mod_test_edit_profile_rename() {
    let mut model = test_model(&[("git", &[("gs", "git status")])]);
    let header_idx = model
        .tree
        .iter()
        .position(|n| n.kind == NodeKind::ProfileHeader && n.label == "git")
        .unwrap();
    model.cursor = header_idx;
    update(&mut model, TuiMessage::EditItem);
    for _ in 0..3 {
        update(&mut model, TuiMessage::TextInputBackspace);
    }
    for c in "vcs".chars() {
        update(&mut model, TuiMessage::TextInputChar(c));
    }
    update(&mut model, TuiMessage::TextInputConfirm);
    assert_eq!(model.mode, Mode::Normal);
    assert!(model.stores.profiles.get_profile_by_name("vcs").is_some());
    assert!(model.stores.profiles.get_profile_by_name("git").is_none());
}

#[test]
fn mod_test_edit_profile_duplicate_name_rejected() {
    let mut model = test_model(&[("git", &[]), ("rust", &[])]);
    let header_idx = model
        .tree
        .iter()
        .position(|n| n.kind == NodeKind::ProfileHeader && n.label == "git")
        .unwrap();
    model.cursor = header_idx;
    update(&mut model, TuiMessage::EditItem);
    for _ in 0..3 {
        update(&mut model, TuiMessage::TextInputBackspace);
    }
    for c in "rust".chars() {
        update(&mut model, TuiMessage::TextInputChar(c));
    }
    update(&mut model, TuiMessage::TextInputConfirm);
    match &model.mode {
        Mode::TextInput(TextInputState::EditProfile { error, .. }) => {
            assert!(error.is_some());
        }
        other => panic!("expected EditProfile with error, got {other:?}"),
    }
}

#[test]
fn mod_test_edit_alias_changes_command() {
    let mut model = test_model(&[("git", &[("gs", "git status")])]);
    let alias_idx = model
        .tree
        .iter()
        .position(|n| n.kind == NodeKind::AliasItem)
        .unwrap();
    model.cursor = alias_idx;
    update(&mut model, TuiMessage::EditItem);
    update(&mut model, TuiMessage::TextInputSwitchField);
    for _ in 0..10 {
        update(&mut model, TuiMessage::TextInputBackspace);
    }
    for c in "git status -sb".chars() {
        update(&mut model, TuiMessage::TextInputChar(c));
    }
    update(&mut model, TuiMessage::TextInputConfirm);
    assert_eq!(model.mode, Mode::Normal);
    let profile = model.stores.profiles.get_profile_by_name("git").unwrap();
    let key = AliasName::from("gs");
    assert_eq!(
        profile.aliases.get(&key).unwrap().command(),
        "git status -sb"
    );
}

#[test]
fn mod_test_edit_alias_name_collision_rejected() {
    let mut model = test_model(&[("git", &[("gs", "git status"), ("gp", "git push")])]);
    let alias_idx = model
        .tree
        .iter()
        .position(|n| {
            n.kind == NodeKind::AliasItem
                && n.alias_id
                    == Some(AliasId::Profile {
                        profile_name: "git".to_string(),
                        alias_name: "gs".to_string(),
                    })
        })
        .unwrap();
    model.cursor = alias_idx;
    update(&mut model, TuiMessage::EditItem);
    update(&mut model, TuiMessage::TextInputBackspace);
    update(&mut model, TuiMessage::TextInputBackspace);
    for c in "gp".chars() {
        update(&mut model, TuiMessage::TextInputChar(c));
    }
    update(&mut model, TuiMessage::TextInputConfirm);
    match &model.mode {
        Mode::TextInput(TextInputState::EditAlias { error, .. }) => {
            assert!(error.is_some());
        }
        other => panic!("expected EditAlias with error, got {other:?}"),
    }
}

#[test]
fn mod_test_edit_on_global_header_is_noop() {
    let mut model = test_model(&[]);
    model
        .stores
        .config
        .add_alias("ll".into(), "ls -la".into(), false);
    model.rebuild_tree();
    assert_eq!(model.tree[model.cursor].kind, NodeKind::GlobalHeader);
    update(&mut model, TuiMessage::EditItem);
    assert_eq!(model.mode, Mode::Normal);
}

#[test]
fn update_test_cursor_down_moves_to_next_navigable() {
    let mut model = test_model(&[("git", &[("gs", "git status"), ("gp", "git push")])]);
    update(&mut model, TuiMessage::CursorDown);
    assert_eq!(model.cursor, 1);
}

#[test]
fn update_test_cursor_up_at_top_stays() {
    let mut model = test_model(&[("git", &[])]);
    model.cursor = 0;
    update(&mut model, TuiMessage::CursorUp);
    assert_eq!(model.cursor, 0);
}

#[test]
fn update_test_cursor_down_at_bottom_stays() {
    let mut model = test_model(&[("git", &[("gs", "git status")])]);
    let last = model.tree.len() - 1;
    model.cursor = last;
    update(&mut model, TuiMessage::CursorDown);
    assert_eq!(model.cursor, last);
}

#[test]
fn update_test_toggle_select_on_alias() {
    let mut model = test_model(&[("git", &[("gs", "git status")])]);
    let alias_idx = model
        .tree
        .iter()
        .position(|n| n.kind == NodeKind::AliasItem)
        .unwrap();
    model.cursor = alias_idx;
    update(&mut model, TuiMessage::ToggleSelect);
    assert_eq!(model.selected.len(), 1);
    update(&mut model, TuiMessage::ToggleSelect);
    assert!(model.selected.is_empty());
}

#[test]
fn update_test_toggle_select_on_header_is_noop() {
    let mut model = test_model(&[("git", &[("gs", "git status")])]);
    model.cursor = 0;
    update(&mut model, TuiMessage::ToggleSelect);
    assert!(model.selected.is_empty());
}

#[test]
fn update_test_jump_top_and_bottom() {
    let mut model = test_model(&[("a", &[("x", "cmd1")]), ("b", &[("y", "cmd2")])]);
    update(&mut model, TuiMessage::JumpBottom);
    assert!(model.cursor > 0);
    update(&mut model, TuiMessage::JumpTop);
    assert_eq!(model.cursor, 0);
}

#[test]
fn update_test_enter_move_mode_with_selection() {
    let mut model = test_model(&[("git", &[("gs", "git status")])]);
    let alias_idx = model
        .tree
        .iter()
        .position(|n| n.kind == NodeKind::AliasItem)
        .unwrap();
    model.cursor = alias_idx;
    update(&mut model, TuiMessage::ToggleSelect);
    update(&mut model, TuiMessage::EnterMoveMode);
    assert_eq!(model.mode, Mode::Transfer(TransferMode::Move));
    assert_eq!(model.active_column, Column::Right);
}

#[test]
fn update_test_enter_move_mode_without_selection_is_noop() {
    let mut model = test_model(&[("git", &[("gs", "git status")])]);
    update(&mut model, TuiMessage::EnterMoveMode);
    assert_eq!(model.mode, Mode::Normal);
}

#[test]
fn update_test_cancel_move_clears_selection() {
    let mut model = test_model(&[("git", &[("gs", "git status")])]);
    let alias_idx = model
        .tree
        .iter()
        .position(|n| n.kind == NodeKind::AliasItem)
        .unwrap();
    model.cursor = alias_idx;
    update(&mut model, TuiMessage::ToggleSelect);
    update(&mut model, TuiMessage::EnterMoveMode);
    update(&mut model, TuiMessage::CancelTransfer);
    assert_eq!(model.mode, Mode::Normal);
    assert!(model.selected.is_empty());
    assert_eq!(model.active_column, Column::Left);
}

#[test]
fn update_test_switch_column_in_move_mode() {
    let mut model = test_model(&[("git", &[("gs", "git status")])]);
    let alias_idx = model
        .tree
        .iter()
        .position(|n| n.kind == NodeKind::AliasItem)
        .unwrap();
    model.cursor = alias_idx;
    update(&mut model, TuiMessage::ToggleSelect);
    update(&mut model, TuiMessage::EnterMoveMode);
    assert_eq!(model.active_column, Column::Right);
    update(&mut model, TuiMessage::SwitchColumn);
    assert_eq!(model.active_column, Column::Left);
    update(&mut model, TuiMessage::SwitchColumn);
    assert_eq!(model.active_column, Column::Right);
}

#[test]
fn update_test_switch_column_in_normal_mode_is_noop() {
    let mut model = test_model(&[("git", &[])]);
    update(&mut model, TuiMessage::SwitchColumn);
    assert_eq!(model.active_column, Column::Left);
}

#[test]
fn update_test_same_source_move_is_noop() {
    let mut model = test_model(&[("git", &[("gs", "git status")])]);
    let alias_idx = model
        .tree
        .iter()
        .position(|n| n.kind == NodeKind::AliasItem)
        .unwrap();
    model.cursor = alias_idx;
    update(&mut model, TuiMessage::ToggleSelect);
    update(&mut model, TuiMessage::EnterMoveMode);
    let git_idx = model
        .dest_tree
        .iter()
        .position(|n| n.label == "git")
        .unwrap();
    model.dest_cursor = git_idx;
    update(&mut model, TuiMessage::ExecuteTransfer);
    assert_eq!(model.mode, Mode::Normal);
    assert!(model
        .stores
        .profiles
        .get_profile_by_name("git")
        .unwrap()
        .aliases
        .iter()
        .any(|(n, _)| n.as_ref() == "gs"));
}

#[test]
fn update_test_delete_alias() {
    let mut model = test_model(&[("git", &[("gs", "git status")])]);
    let alias_idx = model
        .tree
        .iter()
        .position(|n| n.kind == NodeKind::AliasItem)
        .unwrap();
    model.cursor = alias_idx;
    update(&mut model, TuiMessage::DeleteItem);
    assert!(model
        .stores
        .profiles
        .get_profile_by_name("git")
        .unwrap()
        .aliases
        .is_empty());
}

#[test]
fn update_test_delete_profile_enters_confirm() {
    let mut model = test_model(&[("git", &[("gs", "git status")])]);
    let header_idx = model
        .tree
        .iter()
        .position(|n| n.kind == NodeKind::ProfileHeader && n.label == "git")
        .unwrap();
    model.cursor = header_idx;
    update(&mut model, TuiMessage::DeleteItem);
    assert_eq!(
        model.mode,
        Mode::Confirm(ConfirmAction::DeleteProfile("git".to_string()))
    );
}

#[test]
fn update_test_confirm_yes_deletes_profile() {
    let mut model = test_model(&[("git", &[("gs", "git status")]), ("rust", &[("ct", "cargo test")])]);
    model.mode = Mode::Confirm(ConfirmAction::DeleteProfile("git".to_string()));
    update(&mut model, TuiMessage::ConfirmYes);
    assert_eq!(model.mode, Mode::Normal);
    assert_eq!(model.stores.profiles.profiles.len(), 1);
    assert!(model.stores.profiles.get_profile_by_name("git").is_none());
}

#[test]
fn update_test_confirm_no_cancels_delete() {
    let mut model = test_model(&[("git", &[])]);
    model.mode = Mode::Confirm(ConfirmAction::DeleteProfile("git".to_string()));
    update(&mut model, TuiMessage::ConfirmNo);
    assert_eq!(model.mode, Mode::Normal);
    assert!(model.stores.profiles.get_profile_by_name("git").is_some());
}

#[test]
fn update_test_start_create_profile_enters_text_input() {
    let mut model = test_model(&[]);
    update(&mut model, TuiMessage::StartCreateProfile);
    assert_eq!(
        model.mode,
        Mode::TextInput(TextInputState::NewProfile(String::new()))
    );
}

#[test]
fn update_test_text_input_confirm_creates_profile() {
    let mut model = test_model(&[]);
    update(&mut model, TuiMessage::StartCreateProfile);
    for c in "newprof".chars() {
        update(&mut model, TuiMessage::TextInputChar(c));
    }
    update(&mut model, TuiMessage::TextInputConfirm);
    assert_eq!(model.mode, Mode::Normal);
    assert!(model.stores.profiles.get_profile_by_name("newprof").is_some());
}

#[test]
fn update_test_text_input_cancel() {
    let mut model = test_model(&[]);
    update(&mut model, TuiMessage::StartCreateProfile);
    for c in "newprof".chars() {
        update(&mut model, TuiMessage::TextInputChar(c));
    }
    update(&mut model, TuiMessage::TextInputCancel);
    assert_eq!(model.mode, Mode::Normal);
    assert!(model.stores.profiles.get_profile_by_name("newprof").is_none());
}

#[test]
fn update_test_text_input_empty_confirm_is_noop() {
    let mut model = test_model(&[]);
    update(&mut model, TuiMessage::StartCreateProfile);
    update(&mut model, TuiMessage::TextInputConfirm);
    assert_eq!(
        model.mode,
        Mode::TextInput(TextInputState::NewProfile(String::new()))
    );
    assert_eq!(model.stores.profiles.profiles.len(), 0);
}

#[test]
fn update_test_toggle_active_profile() {
    let mut model = test_model(&[("git", &[]), ("rust", &[])]);
    let header_idx = model
        .tree
        .iter()
        .position(|n| n.kind == NodeKind::ProfileHeader && n.label == "rust")
        .unwrap();
    model.cursor = header_idx;
    update(&mut model, TuiMessage::UseProfile);
    assert!(model.active_profiles.contains(&"rust".to_string()));
    let header_idx = model
        .tree
        .iter()
        .position(|n| n.kind == NodeKind::ProfileHeader && n.label == "rust")
        .unwrap();
    model.cursor = header_idx;
    update(&mut model, TuiMessage::UseProfile);
    assert!(!model.active_profiles.contains(&"rust".to_string()));
}

#[test]
fn update_test_use_profile_with_priority() {
    let mut model = test_model(&[("git", &[]), ("rust", &[])]);
    let header_idx = model
        .tree
        .iter()
        .position(|n| n.kind == NodeKind::ProfileHeader && n.label == "git")
        .unwrap();
    model.cursor = header_idx;
    update(&mut model, TuiMessage::UseProfile);
    assert!(model.active_profiles.contains(&"git".to_string()));
    let header_idx = model
        .tree
        .iter()
        .position(|n| n.kind == NodeKind::ProfileHeader && n.label == "rust")
        .unwrap();
    model.cursor = header_idx;
    update(&mut model, TuiMessage::UseProfileWithPriority(1));
    assert_eq!(
        model.active_profiles,
        vec!["rust".to_string(), "git".to_string()]
    );
}

#[test]
fn update_test_enter_copy_mode_with_selection() {
    let mut model = test_model(&[("git", &[("gs", "git status")])]);
    let alias_idx = model
        .tree
        .iter()
        .position(|n| n.kind == NodeKind::AliasItem)
        .unwrap();
    model.cursor = alias_idx;
    update(&mut model, TuiMessage::ToggleSelect);
    update(&mut model, TuiMessage::EnterCopyMode);
    assert_eq!(model.mode, Mode::Transfer(TransferMode::Copy));
    assert_eq!(model.active_column, Column::Right);
}

#[test]
fn update_test_copy_preserves_source() {
    let mut model = test_model(&[("git", &[("gs", "git status")]), ("rust", &[])]);
    let alias_idx = model
        .tree
        .iter()
        .position(|n| n.kind == NodeKind::AliasItem)
        .unwrap();
    model.cursor = alias_idx;
    update(&mut model, TuiMessage::ToggleSelect);
    update(&mut model, TuiMessage::EnterCopyMode);
    let rust_idx = model
        .dest_tree
        .iter()
        .position(|n| n.label == "rust")
        .unwrap();
    model.dest_cursor = rust_idx;
    update(&mut model, TuiMessage::ExecuteTransfer);
    assert!(model
        .stores
        .profiles
        .get_profile_by_name("git")
        .unwrap()
        .aliases
        .iter()
        .any(|(n, _)| n.as_ref() == "gs"));
    assert!(model
        .stores
        .profiles
        .get_profile_by_name("rust")
        .unwrap()
        .aliases
        .iter()
        .any(|(n, _)| n.as_ref() == "gs"));
}

#[test]
fn update_test_copy_same_source_is_noop() {
    let mut model = test_model(&[("git", &[("gs", "git status")])]);
    let alias_idx = model
        .tree
        .iter()
        .position(|n| n.kind == NodeKind::AliasItem)
        .unwrap();
    model.cursor = alias_idx;
    update(&mut model, TuiMessage::ToggleSelect);
    update(&mut model, TuiMessage::EnterCopyMode);
    let git_idx = model
        .dest_tree
        .iter()
        .position(|n| n.label == "git")
        .unwrap();
    model.dest_cursor = git_idx;
    update(&mut model, TuiMessage::ExecuteTransfer);
    assert_eq!(model.mode, Mode::Normal);
}

#[test]
fn update_test_edit_profile_enters_text_input() {
    let mut model = test_model(&[("git", &[])]);
    let header_idx = model
        .tree
        .iter()
        .position(|n| n.kind == NodeKind::ProfileHeader && n.label == "git")
        .unwrap();
    model.cursor = header_idx;
    update(&mut model, TuiMessage::EditItem);
    assert_eq!(
        model.mode,
        Mode::TextInput(TextInputState::EditProfile {
            original_name: "git".to_string(),
            name: "git".to_string(),
            error: None,
        })
    );
}

#[test]
fn update_test_edit_profile_rename() {
    let mut model = test_model(&[("git", &[("gs", "git status")])]);
    let header_idx = model
        .tree
        .iter()
        .position(|n| n.kind == NodeKind::ProfileHeader && n.label == "git")
        .unwrap();
    model.cursor = header_idx;
    update(&mut model, TuiMessage::EditItem);
    for _ in 0..3 {
        update(&mut model, TuiMessage::TextInputBackspace);
    }
    for c in "vcs".chars() {
        update(&mut model, TuiMessage::TextInputChar(c));
    }
    update(&mut model, TuiMessage::TextInputConfirm);
    assert_eq!(model.mode, Mode::Normal);
    assert!(model.stores.profiles.get_profile_by_name("vcs").is_some());
    assert!(model.stores.profiles.get_profile_by_name("git").is_none());
}

#[test]
fn update_test_edit_profile_duplicate_name_rejected() {
    let mut model = test_model(&[("git", &[]), ("rust", &[])]);
    let header_idx = model
        .tree
        .iter()
        .position(|n| n.kind == NodeKind::ProfileHeader && n.label == "git")
        .unwrap();
    model.cursor = header_idx;
    update(&mut model, TuiMessage::EditItem);
    for _ in 0..3 {
        update(&mut model, TuiMessage::TextInputBackspace);
    }
    for c in "rust".chars() {
        update(&mut model, TuiMessage::TextInputChar(c));
    }
    update(&mut model, TuiMessage::TextInputConfirm);
    match &model.mode {
        Mode::TextInput(TextInputState::EditProfile { error, .. }) => {
            assert!(error.is_some());
        }
        other => panic!("expected EditProfile with error, got {other:?}"),
    }
}

#[test]
fn update_test_edit_alias_changes_command() {
    let mut model = test_model(&[("git", &[("gs", "git status")])]);
    let alias_idx = model
        .tree
        .iter()
        .position(|n| n.kind == NodeKind::AliasItem)
        .unwrap();
    model.cursor = alias_idx;
    update(&mut model, TuiMessage::EditItem);
    update(&mut model, TuiMessage::TextInputSwitchField);
    for _ in 0..10 {
        update(&mut model, TuiMessage::TextInputBackspace);
    }
    for c in "git status -sb".chars() {
        update(&mut model, TuiMessage::TextInputChar(c));
    }
    update(&mut model, TuiMessage::TextInputConfirm);
    assert_eq!(model.mode, Mode::Normal);
    let profile = model.stores.profiles.get_profile_by_name("git").unwrap();
    let key = AliasName::from("gs");
    assert_eq!(
        profile.aliases.get(&key).unwrap().command(),
        "git status -sb"
    );
}

#[test]
fn update_test_edit_alias_name_collision_rejected() {
    let mut model = test_model(&[("git", &[("gs", "git status"), ("gp", "git push")])]);
    let alias_idx = model
        .tree
        .iter()
        .position(|n| {
            n.kind == NodeKind::AliasItem
                && n.alias_id
                    == Some(AliasId::Profile {
                        profile_name: "git".to_string(),
                        alias_name: "gs".to_string(),
                    })
        })
        .unwrap();
    model.cursor = alias_idx;
    update(&mut model, TuiMessage::EditItem);
    update(&mut model, TuiMessage::TextInputBackspace);
    update(&mut model, TuiMessage::TextInputBackspace);
    for c in "gp".chars() {
        update(&mut model, TuiMessage::TextInputChar(c));
    }
    update(&mut model, TuiMessage::TextInputConfirm);
    match &model.mode {
        Mode::TextInput(TextInputState::EditAlias { error, .. }) => {
            assert!(error.is_some());
        }
        other => panic!("expected EditAlias with error, got {other:?}"),
    }
}

#[test]
fn update_test_edit_on_global_header_is_noop() {
    let mut model = test_model(&[]);
    model
        .stores
        .config
        .add_alias("ll".into(), "ls -la".into(), false);
    model.rebuild_tree();
    assert_eq!(model.tree[model.cursor].kind, NodeKind::GlobalHeader);
    update(&mut model, TuiMessage::EditItem);
    assert_eq!(model.mode, Mode::Normal);
}

#[test]
fn test_start_add_alias_on_subcommand_program_header_opens_subcmd_editor() {
    let mut model = make_subcmd_model(&[("jj:ab", &["abandon"])]);
    let idx = model
        .tree
        .iter()
        .position(|n| n.kind == NodeKind::SubcommandProgramHeader)
        .unwrap();
    model.cursor = idx;
    update(&mut model, TuiMessage::StartAddAlias);
    assert!(
        matches!(
            model.mode,
            Mode::TextInput(TextInputState::SubcommandInput { .. })
        ),
        "expected SubcommandInput mode, got {:?}",
        model.mode
    );
}

#[test]
fn test_new_alias_tab_with_colon_morphs_to_subcommand_editor() {
    let mut model = test_model(&[]);
    model.mode = Mode::TextInput(TextInputState::NewAlias {
        name: "git:".into(),
        command: String::new(),
        active_field: AliasField::Name,
        cursor: 4,
        target: AliasTarget::Global,
    });
    update(&mut model, TuiMessage::TextInputSwitchField);
    match &model.mode {
        Mode::TextInput(TextInputState::SubcommandInput { program, pairs, .. }) => {
            assert_eq!(program, "git");
            assert_eq!(pairs.len(), 1);
            assert_eq!(pairs[0].0, "");
        }
        other => panic!("expected SubcommandInput, got {other:?}"),
    }
}

#[test]
fn test_new_alias_tab_with_colon_and_short_token() {
    let mut model = test_model(&[]);
    model.mode = Mode::TextInput(TextInputState::NewAlias {
        name: "git:co".into(),
        command: String::new(),
        active_field: AliasField::Name,
        cursor: 6,
        target: AliasTarget::Global,
    });
    update(&mut model, TuiMessage::TextInputSwitchField);
    match &model.mode {
        Mode::TextInput(TextInputState::SubcommandInput { program, pairs, cursor, .. }) => {
            assert_eq!(program, "git");
            assert_eq!(pairs[0].0, "co");
            assert_eq!(*cursor, "co".len());
        }
        other => panic!("expected SubcommandInput, got {other:?}"),
    }
}

#[test]
fn test_new_alias_tab_without_colon_switches_to_command_field() {
    let mut model = test_model(&[]);
    model.mode = Mode::TextInput(TextInputState::NewAlias {
        name: "ll".into(),
        command: String::new(),
        active_field: AliasField::Name,
        cursor: 2,
        target: AliasTarget::Global,
    });
    update(&mut model, TuiMessage::TextInputSwitchField);
    match &model.mode {
        Mode::TextInput(TextInputState::NewAlias { active_field, .. }) => {
            assert_eq!(*active_field, AliasField::Command);
        }
        other => panic!("expected NewAlias on Command field, got {other:?}"),
    }
}

#[test]
fn test_subcmd_add_pair_extends_pairs() {
    let mut model = test_model(&[]);
    model.mode = Mode::TextInput(TextInputState::SubcommandInput {
        program: "jj".into(),
        pairs: vec![("ab".into(), "abandon".into())],
        active_pair: 0,
        active_field: SubcommandField::Long,
        cursor: "abandon".len(),
        target: AliasTarget::Global,
        original_key: None,
    });
    update(&mut model, TuiMessage::TextInputSwitchField);
    match &model.mode {
        Mode::TextInput(TextInputState::SubcommandInput { pairs, active_pair, active_field, .. }) => {
            assert_eq!(pairs.len(), 2);
            assert_eq!(*active_pair, 1);
            assert_eq!(*active_field, SubcommandField::Short);
        }
        other => panic!("expected SubcommandInput, got {other:?}"),
    }
}

#[test]
fn test_tab_on_empty_long_does_not_add_pair() {
    let mut model = test_model(&[]);
    model.mode = Mode::TextInput(TextInputState::SubcommandInput {
        program: "jj".into(),
        pairs: vec![("ab".into(), "".into())],
        active_pair: 0,
        active_field: SubcommandField::Long,
        cursor: 0,
        target: AliasTarget::Global,
        original_key: None,
    });
    update(&mut model, TuiMessage::TextInputSwitchField);
    match &model.mode {
        Mode::TextInput(TextInputState::SubcommandInput { pairs, active_pair, .. }) => {
            assert_eq!(pairs.len(), 1, "no new pair should be added");
            assert_eq!(*active_pair, 0);
        }
        other => panic!("expected SubcommandInput, got {other:?}"),
    }
}

#[test]
fn test_esc_removes_empty_last_pair() {
    let mut model = test_model(&[]);
    model.mode = Mode::TextInput(TextInputState::SubcommandInput {
        program: "jj".into(),
        pairs: vec![("ab".into(), "abandon".into()), ("".into(), "".into())],
        active_pair: 1,
        active_field: SubcommandField::Short,
        cursor: 0,
        target: AliasTarget::Global,
        original_key: None,
    });
    update(&mut model, TuiMessage::TextInputCancel);
    match &model.mode {
        Mode::TextInput(TextInputState::SubcommandInput { pairs, active_pair, .. }) => {
            assert_eq!(pairs.len(), 1, "empty last pair should be removed");
            assert_eq!(*active_pair, 0);
        }
        other => panic!("expected SubcommandInput after first Esc, got {other:?}"),
    }
    update(&mut model, TuiMessage::TextInputCancel);
    assert_eq!(model.mode, Mode::Normal);
}

#[test]
fn test_subcmd_confirm_dispatches_add() {
    let mut model = test_model(&[]);
    model.mode = Mode::TextInput(TextInputState::SubcommandInput {
        program: "jj".into(),
        pairs: vec![("ab".into(), "abandon".into())],
        active_pair: 0,
        active_field: SubcommandField::Long,
        cursor: "abandon".len(),
        target: AliasTarget::Global,
        original_key: None,
    });
    update(&mut model, TuiMessage::TextInputConfirm);
    assert_eq!(model.mode, Mode::Normal);
    assert!(model.stores.config.subcommands.contains_key("jj:ab"));
}

#[test]
fn test_delete_subcommand_item() {
    let mut model = make_subcmd_model(&[("jj:ab", &["abandon"])]);
    let idx = model
        .tree
        .iter()
        .position(|n| n.kind == NodeKind::SubcommandItem)
        .unwrap();
    model.cursor = idx;
    update(&mut model, TuiMessage::DeleteItem);
    assert!(!model.stores.config.subcommands.contains_key("jj:ab"));
}

#[test]
fn test_delete_subcommand_program_header_removes_all_keys() {
    let mut model = make_subcmd_model(&[("jj:ab", &["abandon"]), ("jj:b:l", &["branch", "list"])]);
    let idx = model
        .tree
        .iter()
        .position(|n| n.kind == NodeKind::SubcommandProgramHeader)
        .unwrap();
    model.cursor = idx;
    update(&mut model, TuiMessage::DeleteItem);
    assert!(model.stores.config.subcommands.is_empty());
}

#[test]
fn test_toggle_select_on_subcommand_item_adds_to_selected() {
    let mut model = make_subcmd_model(&[("jj:ab", &["abandon"])]);
    let idx = model
        .tree
        .iter()
        .position(|n| n.kind == NodeKind::SubcommandItem)
        .unwrap();
    model.cursor = idx;
    update(&mut model, TuiMessage::ToggleSelect);
    assert_eq!(model.selected.len(), 1);
    let id = model.selected.iter().next().unwrap();
    assert!(matches!(id, AliasId::Subcommand { .. }));
}

fn alias_command(model: &TuiModel, profile: &str, name: &str) -> Option<String> {
    let p = model.stores.profiles.get_profile_by_name(profile)?;
    p.aliases.get(&AliasName::from(name)).map(|a| a.command().to_string())
}

#[test]
fn update_clears_the_status_line() {
    let mut model = test_model(&[("git", &[])]);
    model.status_line = Some("earlier".to_string());
    update(&mut model, TuiMessage::CursorDown);
    assert_eq!(model.status_line, None);
}

#[test]
fn new_global_alias_is_stored_and_asks_for_a_save() {
    let mut model = test_model(&[]);
    assert_eq!(model.tree[0].kind, NodeKind::GlobalHeader);
    update(&mut model, TuiMessage::StartAddAlias);
    for c in "ll".chars() {
        update(&mut model, TuiMessage::TextInputChar(c));
    }
    update(&mut model, TuiMessage::TextInputSwitchField);
    for c in " ls -la ".chars() {
        update(&mut model, TuiMessage::TextInputChar(c));
    }
    let r = update(&mut model, TuiMessage::TextInputConfirm);
    assert_eq!(r, TuiRequest::Save);
    assert_eq!(model.mode, Mode::Normal);
    assert_eq!(model.stores.config.aliases.get(&AliasName::from("ll")).unwrap().command(), "ls -la");
    assert!(model.tree.iter().any(|n| n.label == "ll"));
}

#[test]
fn new_alias_for_untrusted_project_is_refused() {
    let stores = AliasStores { config: Config::default(), profiles: ProfileConfig::default(), project: None };
    let mut model = TuiModel::new(stores, Vec::new(), Some(ProjectTrustState::Untrusted));
    let idx = model.tree.iter().position(|n| n.kind == NodeKind::ProjectHeader).unwrap();
    model.cursor = idx;
    update(&mut model, TuiMessage::StartAddAlias);
    for c in "ll".chars() {
        update(&mut model, TuiMessage::TextInputChar(c));
    }
    update(&mut model, TuiMessage::TextInputSwitchField);
    for c in "ls".chars() {
        update(&mut model, TuiMessage::TextInputChar(c));
    }
    let r = update(&mut model, TuiMessage::TextInputConfirm);
    assert_eq!(r, TuiRequest::Nothing);
    assert_eq!(model.mode, Mode::Normal);
    assert_eq!(model.status_line.as_deref(), Some("press 't' to trust this project"));
    assert!(model.stores.project.is_none());
}

#[test]
fn new_alias_for_missing_profile_is_reported() {
    let mut model = test_model(&[]);
    model.mode = Mode::TextInput(TextInputState::NewAlias {
        name: "ll".into(),
        command: "ls".into(),
        active_field: AliasField::Command,
        cursor: 2,
        target: AliasTarget::Profile("ghost".into()),
    });
    let r = update(&mut model, TuiMessage::TextInputConfirm);
    assert_eq!(r, TuiRequest::Nothing);
    assert_eq!(model.status_line.as_deref(), Some("profile 'ghost' not found"));
    assert_eq!(model.mode, Mode::Normal);
}

#[test]
fn typing_and_erasing_work_at_the_cursor() {
    let mut model = test_model(&[]);
    model.mode = Mode::TextInput(TextInputState::NewAlias {
        name: "ac".into(),
        command: String::new(),
        active_field: AliasField::Name,
        cursor: 1,
        target: AliasTarget::Global,
    });
    update(&mut model, TuiMessage::TextInputChar('b'));
    let name_cursor = |m: &TuiModel| match &m.mode {
        Mode::TextInput(TextInputState::NewAlias { name, cursor, .. }) => (name.clone(), *cursor),
        other => panic!("unexpected mode {other:?}"),
    };
    assert_eq!(name_cursor(&model), ("abc".to_string(), 2));
    update(&mut model, TuiMessage::TextInputChar('\u{e9}'));
    assert_eq!(name_cursor(&model), ("ab\u{e9}c".to_string(), 4));
    update(&mut model, TuiMessage::TextInputCursorLeft);
    assert_eq!(name_cursor(&model).1, 2);
    update(&mut model, TuiMessage::TextInputCursorRight);
    assert_eq!(name_cursor(&model).1, 4);
    update(&mut model, TuiMessage::TextInputBackspace);
    assert_eq!(name_cursor(&model), ("abc".to_string(), 2));
    update(&mut model, TuiMessage::TextInputCursorLeft);
    update(&mut model, TuiMessage::TextInputCursorLeft);
    update(&mut model, TuiMessage::TextInputCursorLeft);
    assert_eq!(name_cursor(&model).1, 0);
    update(&mut model, TuiMessage::TextInputBackspace);
    assert_eq!(name_cursor(&model), ("abc".to_string(), 0));
}

#[test]
fn renaming_an_active_profile_renames_its_activation() {
    let mut pc = ProfileConfig::default();
    pc.profiles.push(Profile::new("git".to_string()));
    let stores = AliasStores { config: Config::default(), profiles: pc, project: None };
    let mut model = TuiModel::new(stores, vec!["git".to_string()], None);
    let idx = model.tree.iter().position(|n| n.kind == NodeKind::ProfileHeader && n.label == "git").unwrap();
    model.cursor = idx;
    update(&mut model, TuiMessage::EditItem);
    for _ in 0..3 {
        update(&mut model, TuiMessage::TextInputBackspace);
    }
    for c in "vcs".chars() {
        update(&mut model, TuiMessage::TextInputChar(c));
    }
    assert_eq!(update(&mut model, TuiMessage::TextInputConfirm), TuiRequest::Save);
    assert_eq!(model.active_profiles, vec!["vcs".to_string()]);
}

#[test]
fn deleting_an_active_profile_deactivates_it() {
    let mut pc = ProfileConfig::default();
    pc.profiles.push(Profile::new("git".to_string()));
    let stores = AliasStores { config: Config::default(), profiles: pc, project: None };
    let mut model = TuiModel::new(stores, vec!["git".to_string()], None);
    model.mode = Mode::Confirm(ConfirmAction::DeleteProfile("git".to_string()));
    assert_eq!(update(&mut model, TuiMessage::ConfirmYes), TuiRequest::Save);
    assert!(model.active_profiles.is_empty());
    assert!(model.stores.profiles.profiles.is_empty());
}

#[test]
fn moving_onto_an_existing_name_asks_then_overwrites() {
    let mut model = test_model(&[("git", &[("gs", "git status")]), ("rust", &[("gs", "other")])]);
    let idx = model
        .tree
        .iter()
        .position(|n| {
            n.alias_id == Some(AliasId::Profile { profile_name: "git".into(), alias_name: "gs".into() })
        })
        .unwrap();
    model.cursor = idx;
    update(&mut model, TuiMessage::EnterMoveMode);
    let rust_idx = model.dest_tree.iter().position(|n| n.label == "rust").unwrap();
    model.dest_cursor = rust_idx;
    assert_eq!(update(&mut model, TuiMessage::ExecuteTransfer), TuiRequest::Nothing);
    match &model.mode {
        Mode::Confirm(ConfirmAction::OverwriteAliases { aliases, transfer_mode, .. }) => {
            assert_eq!(aliases.len(), 1);
            assert_eq!(*transfer_mode, TransferMode::Move);
        }
        other => panic!("expected an overwrite question, got {other:?}"),
    }
    assert_eq!(update(&mut model, TuiMessage::ConfirmYes), TuiRequest::Save);
    assert_eq!(model.mode, Mode::Normal);
    assert!(model.selected.is_empty());
    assert_eq!(alias_command(&model, "rust", "gs").as_deref(), Some("git status"));
    assert_eq!(alias_command(&model, "git", "gs"), None);
}

#[test]
fn toggle_trust_on_project_header_asks_the_caller() {
    let stores = AliasStores { config: Config::default(), profiles: ProfileConfig::default(), project: None };
    let mut model = TuiModel::new(stores, Vec::new(), Some(ProjectTrustState::Unknown));
    let idx = model.tree.iter().position(|n| n.kind == NodeKind::ProjectHeader).unwrap();
    model.cursor = idx;
    assert_eq!(update(&mut model, TuiMessage::ToggleTrust), TuiRequest::ToggleTrust);
    model.cursor = 0;
    assert_eq!(update(&mut model, TuiMessage::ToggleTrust), TuiRequest::Nothing);
}

#[test]
fn toggling_a_header_selects_then_deselects_its_aliases() {
    let mut model = test_model(&[("git", &[("gs", "git status"), ("gp", "git push")])]);
    let idx = model.tree.iter().position(|n| n.kind == NodeKind::ProfileHeader).unwrap();
    model.cursor = idx;
    update(&mut model, TuiMessage::ToggleSelect);
    assert_eq!(model.selected.len(), 2);
    update(&mut model, TuiMessage::ToggleSelect);
    assert!(model.selected.is_empty());
}

#[test]
fn editing_a_subcommand_item_opens_its_pairs() {
    let mut model = make_subcmd_model(&[("jj:b:l", &["branch", "list"])]);
    let idx = model.tree.iter().position(|n| n.kind == NodeKind::SubcommandItem).unwrap();
    model.cursor = idx;
    update(&mut model, TuiMessage::EditItem);
    match &model.mode {
        Mode::TextInput(TextInputState::SubcommandInput { program, pairs, active_pair, original_key, cursor, .. }) => {
            assert_eq!(program, "jj");
            assert_eq!(
                pairs,
                &vec![("b".to_string(), String::new()), ("l".to_string(), "branch list".to_string())]
            );
            assert_eq!(*active_pair, 1);
            assert_eq!(*cursor, 1);
            assert_eq!(original_key.as_deref(), Some("jj:b:l"));
        }
        other => panic!("expected SubcommandInput, got {other:?}"),
    }
}

#[test]
fn deleting_a_subcommand_group_removes_the_keys_under_it() {
    let mut model = make_subcmd_model(&[("jj:b:l", &["branch", "list"]), ("jj:b:d", &["branch", "delete"]), ("jj:ab", &["abandon"])]);
    let idx = model.tree.iter().position(|n| n.kind == NodeKind::SubcommandGroupNode).unwrap();
    model.cursor = idx;
    assert_eq!(update(&mut model, TuiMessage::DeleteItem), TuiRequest::Save);
    assert!(model.stores.config.subcommands.contains_key("jj:ab"));
    assert!(!model.stores.config.subcommands.contains_key("jj:b:l"));
    assert!(!model.stores.config.subcommands.contains_key("jj:b:d"));
}

#[test]
fn updating_a_subcommand_alias_replaces_its_key() {
    let mut model = make_subcmd_model(&[("jj:ab", &["abandon"])]);
    model.mode = Mode::TextInput(TextInputState::SubcommandInput {
        program: "jj".into(),
        pairs: vec![("ad".into(), "abandon".into())],
        active_pair: 0,
        active_field: SubcommandField::Short,
        cursor: 2,
        target: AliasTarget::Global,
        original_key: Some("jj:ab".into()),
    });
    assert_eq!(update(&mut model, TuiMessage::TextInputConfirm), TuiRequest::Save);
    assert!(!model.stores.config.subcommands.contains_key("jj:ab"));
    assert!(model.stores.config.subcommands.contains_key("jj:ad"));
}

use amoxide::{AliasDetail, AliasSet, TomlAlias};


#[test]
fn test_as_entry_simple() {
    let alias = TomlAlias::Command("git status".to_string());
    let entry = alias.as_entry("gs");
    assert_eq!(entry.name, "gs");
    assert_eq!(entry.command, "git status");
    assert!(!entry.raw);
}


#[test]
fn test_as_entry_detailed_raw() {
    let alias = TomlAlias::Detailed(AliasDetail {
        command: "awk '{print {{1}}}'".to_string(),
        description: None,
        raw: true,
    });
    let entry = alias.as_entry("my-awk");
    assert_eq!(entry.command, "awk '{print {{1}}}'");
    assert!(entry.raw);
}


#[test]
fn test_as_entry_detailed_not_raw() {
    let alias = TomlAlias::Detailed(AliasDetail {
        command: "echo hi".to_string(),
        description: Some("greeting".to_string()),
        raw: false,
    });
    let entry = alias.as_entry("hi");
    assert!(!entry.raw);
}


#[test]
fn test_command_accessor() {
    assert_eq!(TomlAlias::Command("ls".to_string()).command(), "ls");
    assert_eq!(
        TomlAlias::Detailed(AliasDetail {
            command: "echo hi".to_string(),
            description: None,
            raw: false,
        })
        .command(),
        "echo hi"
    );
}


#[test]
fn test_merge_check_all_new() {
    let existing = AliasSet::default();
    let mut incoming = AliasSet::default();
    incoming.insert("gs".into(), TomlAlias::Command("git status".into()));
    incoming.insert("gp".into(), TomlAlias::Command("git push".into()));
    let result = existing.merge_check(&incoming);
    assert_eq!(result.new_aliases.len(), 2);
    assert!(result.conflicts.is_empty());
}


#[test]
fn test_merge_check_no_op_same_command() {
    let mut existing = AliasSet::default();
    existing.insert("gs".into(), TomlAlias::Command("git status".into()));
    let mut incoming = AliasSet::default();
    incoming.insert("gs".into(), TomlAlias::Command("git status".into()));
    let result = existing.merge_check(&incoming);
    assert!(result.new_aliases.is_empty());
    assert!(result.conflicts.is_empty());
}


#[test]
fn alias_test_merge_check_conflict() {
    let mut existing = AliasSet::default();
    existing.insert("gs".into(), TomlAlias::Command("git status --short".into()));
    let mut incoming = AliasSet::default();
    incoming.insert("gs".into(), TomlAlias::Command("git status".into()));
    let result = existing.merge_check(&incoming);
    assert!(result.new_aliases.is_empty());
    assert_eq!(result.conflicts.len(), 1);
    assert_eq!(result.conflicts[0].name.as_ref(), "gs");
    assert_eq!(result.conflicts[0].current.command(), "git status --short");
    assert_eq!(result.conflicts[0].incoming.command(), "git status");
}


#[test]
fn test_merge_check_mixed() {
    let mut existing = AliasSet::default();
    existing.insert("gs".into(), TomlAlias::Command("git status --short".into()));
    let mut incoming = AliasSet::default();
    incoming.insert("gs".into(), TomlAlias::Command("git status".into()));
    incoming.insert("gp".into(), TomlAlias::Command("git push".into()));
    let result = existing.merge_check(&incoming);
    assert_eq!(result.new_aliases.len(), 1);
    assert_eq!(result.conflicts.len(), 1);
}


#[test]
fn test_merge_check_empty_incoming() {
    let mut existing = AliasSet::default();
    existing.insert("gs".into(), TomlAlias::Command("git status".into()));
    let result = existing.merge_check(&AliasSet::default());
    assert!(result.new_aliases.is_empty());
    assert!(result.conflicts.is_empty());
}

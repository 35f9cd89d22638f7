use amoxide::{AliasName, AliasSet, Config, TomlAlias};


#[test]
fn test_add_and_remove_global_alias() {
    let mut config = Config::default();
    config.add_alias("ll".to_string(), "ls -lha".to_string(), false);
    assert_eq!(config.aliases.iter().count(), 1);

    config.remove_alias("ll").unwrap();
    assert!(config.aliases.is_empty());
}


#[test]
fn test_remove_nonexistent_global_alias() {
    let mut config = Config::default();
    let err = config.remove_alias("nope").unwrap_err();
    assert!(err.to_string().contains("not found"));
}


#[test]
fn test_merge_aliases_into_global() {
    let mut config = Config::default();
    config.add_alias("ll".into(), "ls -lha".into(), false);
    let mut incoming = AliasSet::default();
    incoming.insert("gs".into(), TomlAlias::Command("git status".into()));
    incoming.insert("ll".into(), TomlAlias::Command("ls -la".into()));
    config.merge_aliases(incoming);
    assert_eq!(config.aliases.len(), 2);
    assert_eq!(
        config
            .aliases
            .get(&AliasName::from("ll"))
            .unwrap()
            .command(),
        "ls -la"
    );
}


#[test]
fn test_add_and_remove_subcommand() {
    let mut config = Config::default();
    config.add_subcommand("jj:ab".into(), vec!["abandon".into()]);
    assert_eq!(config.subcommands.len(), 1);

    config.remove_subcommand("jj:ab").unwrap();
    assert!(config.subcommands.is_empty());
}


#[test]
fn test_remove_nonexistent_subcommand() {
    let mut config = Config::default();
    let err = config.remove_subcommand("jj:nope").unwrap_err();
    assert!(err.to_string().contains("not found"));
}

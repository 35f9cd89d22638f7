use amoxide::display::{render_listing, render_profiles};
use amoxide::subcommand::{SubcommandDetail, SubcommandSet, TomlSubcommand};
use amoxide::{AliasSet, ProfileConfig};


#[test]
fn test_listing_global_alone_no_trunk() {
    let config: ProfileConfig = ProfileConfig::default();

    let output = render_listing(
        &AliasSet::default(),
        &amoxide::subcommand::SubcommandSet::new(),
        &config,
        &[],
        None,
        None,
        false,
        None,
    );
    assert!(output.contains("🌐 global"));
    // No trunk when global stands alone
    assert!(!output.contains("│"));
}


#[test]
fn test_listing_global_subcommands() {
    

    let config: ProfileConfig = ProfileConfig::default();
    let mut subs = SubcommandSet::new();
    subs.insert("jj:ab".into(), TomlSubcommand::Expansion(vec!["abandon".into()]));
    subs.insert(
        "jj:b:l".into(),
        TomlSubcommand::Expansion(vec!["branch".into(), "list".into()]),
    );

    let output = render_listing(
        &AliasSet::default(),
        &subs,
        &config,
        &[],
        None,
        None,
        false,
        None,
    );
    assert!(output.contains("jj (subcommands)"));
    assert!(output.contains("ab → abandon"));
    assert!(output.contains("b l → branch list"));
}


#[test]
fn listing_with_descriptions_falls_back_to_inline_when_narrow() {
    let config: ProfileConfig = ProfileConfig::default();
    let mut globals = AliasSet::default();
    globals.insert(
        "verylongname".into(),
        amoxide::TomlAlias::Detailed(amoxide::AliasDetail {
            command: "this is a fairly long command line".into(),
            description: Some("desc".into()),
            raw: false,
        }),
    );
    globals.insert(
        "x".into(),
        amoxide::TomlAlias::Detailed(amoxide::AliasDetail {
            command: "y".into(),
            description: Some("d".into()),
            raw: false,
        }),
    );

    let output = render_listing(
        &globals,
        &amoxide::subcommand::SubcommandSet::new(),
        &config,
        &[],
        None,
        None,
        /* descriptions */ true,
        /* term_width */ Some(40), // too narrow to pad
    );

    // The short row gets inline form, not padded out to the long row's column.
    let short_line = output.lines().find(|l| l.contains("x \u{2192} y")).unwrap();
    let single_space_before_hash = short_line.contains("y # d");
    assert!(
        single_space_before_hash,
        "expected inline form on narrow terminal:\n{output}"
    );
}


#[test]
fn listing_subcommand_descriptions_align_with_alias_descriptions() {
    
    let mut globals = AliasSet::default();
    globals.insert(
        "ll".into(),
        amoxide::TomlAlias::Detailed(amoxide::AliasDetail {
            command: "ls -lha".into(),
            description: Some("long listing".into()),
            raw: false,
        }),
    );

    let mut subs = SubcommandSet::new();
    subs.insert(
        "jj:ab".into(),
        TomlSubcommand::Detailed(SubcommandDetail {
            expansions: vec!["abandon".into()],
            description: Some("toss the change".into()),
        }),
    );

    let output = render_listing(
        &globals,
        &subs,
        &ProfileConfig::default(),
        &[],
        None,
        None,
        /* descriptions */ true,
        /* term_width */ Some(120),
    );

    // Find the two lines that carry `#` (the alias and the subcommand entry)
    let described_lines: Vec<&str> = output.lines().filter(|l| l.contains('#')).collect();
    assert_eq!(
        described_lines.len(),
        2,
        "expected 2 described lines, got {}:\n{output}",
        described_lines.len()
    );
    let hash_cols: Vec<usize> =
        described_lines.iter().map(|l| l.find('#').unwrap()).collect();
    assert_eq!(
        hash_cols[0], hash_cols[1],
        "subcommand and alias descriptions not aligned: {hash_cols:?}\n{output}"
    );
    assert!(output.contains("toss the change"));
    assert!(output.contains("long listing"));
}


#[test]
fn listing_without_descriptions_flag_omits_them_entirely() {
    let mut globals = AliasSet::default();
    globals.insert(
        "ll".into(),
        amoxide::TomlAlias::Detailed(amoxide::AliasDetail {
            command: "ls -lha".into(),
            description: Some("long listing".into()),
            raw: false,
        }),
    );

    let output = render_listing(
        &globals,
        &amoxide::subcommand::SubcommandSet::new(),
        &ProfileConfig::default(),
        &[],
        None,
        None,
        /* descriptions */ false,
        Some(120),
    );
    assert!(!output.contains('#'));
    assert!(!output.contains("long listing"));
}

use amoxide::alias::{AliasDisplayFilter, AliasName};
use amoxide::project::{make_alias, ProjectAliases, ProjectTrust};
use amoxide::{AliasDetail, Profile, TomlAlias};

/// Profiles given as (name, [(alias, command)]).
fn make_config(profiles: &[(&str, &[(&str, &str)])]) -> ProfileConfig {
    let mut config = ProfileConfig::default();
    for (name, aliases) in profiles {
        let mut p = Profile::new(name.to_string());
        for (n, c) in aliases.iter() {
            p.aliases.insert(AliasName::new(n), make_alias(c.to_string(), false));
        }
        config.profiles.push(p);
    }
    config
}

fn project_with(name: &str, command: &str) -> ProjectTrust {
    let mut project = ProjectAliases::default();
    project.add_alias(name.to_string(), command.to_string(), false);
    ProjectTrust::Trusted(project, ".aliases".to_string())
}

#[test]
fn test_active_profile_shows_order() {
    let config = make_config(&[("git", &[("gs", "git status")])]);
    let output = render_profiles(&config, &["git".to_string()]);
    assert!(output.contains("● git (active: 1)"));
    assert!(output.contains("  gs → git status"));
}

#[test]
fn test_multiple_active_profiles_ordered() {
    let config = make_config(&[("git", &[("gs", "git status")]), ("rust", &[("ct", "cargo test")])]);
    let output = render_profiles(&config, &["git".to_string(), "rust".to_string()]);
    assert!(output.contains("● git (active: 1)"));
    assert!(output.contains("● rust (active: 2)"));
}

#[test]
fn test_inactive_profiles_shown_after_active() {
    let config = make_config(&[
        ("git", &[("gs", "git status")]),
        ("node", &[("b", "npm run build")]),
        ("rust", &[("ct", "cargo test")]),
    ]);
    let output = render_profiles(&config, &["rust".to_string()]);
    assert!(output.contains("● rust (active: 1)"));
    assert!(output.contains("○ git"));
    assert!(output.contains("○ node"));
    let active_pos = output.find("● rust").unwrap();
    let inactive_git_pos = output.find("○ git").unwrap();
    assert!(active_pos < inactive_git_pos);
}

#[test]
fn test_empty_profile_shows_no_aliases() {
    let config = make_config(&[("empty", &[])]);
    let output = render_profiles(&config, &["empty".to_string()]);
    assert!(output.contains("● empty (active: 1)"));
    assert!(output.contains("(no aliases)"));
}

#[test]
fn test_listing_global_with_trunk() {
    let config = make_config(&[("rust", &[("ct", "cargo test")])]);
    let mut globals = AliasSet::default();
    globals.insert("ll".into(), TomlAlias::Command("ls -lha".to_string()));
    let output = render_listing(&globals, &SubcommandSet::new(), &config, &["rust".to_string()], None, None, false, None);
    assert!(output.contains("🌐 global"));
    assert!(output.contains("│  ╰─ ll → ls -lha"));
    assert!(output.contains("╰─● rust (active: 1)"));
}

#[test]
fn test_listing_active_profiles_with_project() {
    let config = make_config(&[("git", &[("gs", "git status")]), ("rust", &[("ct", "cargo test")])]);
    let trust = project_with("t", "cargo test");
    let output = render_listing(
        &AliasSet::default(),
        &SubcommandSet::new(),
        &config,
        &["git".to_string(), "rust".to_string()],
        Some(&trust),
        None,
        false,
        None,
    );
    assert!(output.contains("├─● git (active: 1)"));
    assert!(output.contains("├─● rust (active: 2)"));
    assert!(output.contains("╰─📁 project"));
    assert!(output.contains("t → cargo test"));
}

#[test]
fn test_listing_last_active_gets_corner_when_no_project() {
    let config = make_config(&[("rust", &[("ct", "cargo test")])]);
    let output =
        render_listing(&AliasSet::default(), &SubcommandSet::new(), &config, &["rust".to_string()], None, None, false, None);
    assert!(output.contains("╰─● rust (active: 1)"));
}

#[test]
fn test_listing_inactive_profiles_below() {
    let config = make_config(&[("foo", &[("sayt", "echo say it")]), ("rust", &[("ct", "cargo test")])]);
    let output =
        render_listing(&AliasSet::default(), &SubcommandSet::new(), &config, &["rust".to_string()], None, None, false, None);
    assert!(output.contains("╰─● rust (active: 1)"));
    assert!(output.contains("○ foo"));
    assert!(output.contains("  ╰─ sayt → echo say it"));
}

#[test]
fn test_listing_with_project_aliases() {
    let config = make_config(&[("default", &[("ll", "ls -lha")])]);
    let trust = project_with("t", "cargo test");
    let output = render_listing(
        &AliasSet::default(),
        &SubcommandSet::new(),
        &config,
        &["default".to_string()],
        Some(&trust),
        None,
        false,
        None,
    );
    assert!(output.contains("● default (active: 1)"));
    assert!(output.contains("📁 project"));
    assert!(output.contains("t → cargo test"));
}

#[test]
fn test_listing_without_project_aliases() {
    let config = make_config(&[("default", &[])]);
    let output = render_listing(
        &AliasSet::default(),
        &SubcommandSet::new(),
        &config,
        &["default".to_string()],
        None,
        None,
        false,
        None,
    );
    assert!(output.contains("● default (active: 1)"));
    assert!(!output.contains("📁"));
}

#[test]
fn test_listing_used_filter_hides_inactive_profiles() {
    let config = make_config(&[("active", &[("t", "cargo test")]), ("inactive", &[("b", "cargo build")])]);
    let output = render_listing(
        &AliasSet::default(),
        &SubcommandSet::new(),
        &config,
        &["active".to_string()],
        None,
        Some(AliasDisplayFilter::Used),
        false,
        None,
    );
    assert!(output.contains("active"), "active profile should be visible");
    assert!(!output.contains("inactive"), "inactive profile should be hidden");
    assert!(!output.contains("cargo build"), "inactive alias should be hidden");
}

#[test]
fn listing_with_descriptions_pads_to_global_column() {
    let mut config = make_config(&[("rust", &[])]);
    config.profiles[0].aliases.insert(
        AliasName::new("b"),
        TomlAlias::Detailed(AliasDetail {
            command: "cargo b --release".into(),
            description: Some("release build".into()),
            raw: false,
        }),
    );
    config.profiles[0].aliases.insert(
        AliasName::new("t"),
        TomlAlias::Detailed(AliasDetail {
            command: "cargo test --all-features".into(),
            description: Some("run all tests".into()),
            raw: false,
        }),
    );
    let mut globals = AliasSet::default();
    globals.insert(
        "ll".into(),
        TomlAlias::Detailed(AliasDetail { command: "ls -lha".into(), description: Some("long listing".into()), raw: false }),
    );
    let output = render_listing(
        &globals,
        &SubcommandSet::new(),
        &config,
        &["rust".to_string()],
        None,
        None,
        true,
        Some(120),
    );
    let lines: Vec<&str> = output.lines().filter(|l| l.contains('#')).collect();
    let hash_cols: Vec<usize> = lines.iter().map(|l| l.chars().take_while(|&c| c != '#').count()).collect();
    assert!(hash_cols.windows(2).all(|w| w[0] == w[1]), "`#` columns not aligned: {hash_cols:?}\n{output}");
}

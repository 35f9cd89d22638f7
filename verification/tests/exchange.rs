use amoxide::exchange::{
    base64_decode, base64_encode, escape_for_display, has_suspicious_chars,
    render_import_summary, render_import_summary_subcommands, render_import_summary_vars,
    render_suspicious_warning, sanitize_for_display, scan_suspicious, select_import,
    subcommand_merge_check, var_merge_check, ExportAll, ExportAllV1, ImportError, ParseSource,
    SubcommandConflict, SubcommandMergeResult, SuspiciousAlias, SuspiciousChar, VarConflict,
    VarMergeResult,
};
use amoxide::alias::{AliasConflict, MergeResult};
use amoxide::subcommand::{SubcommandDetail, SubcommandSet, TomlSubcommand};
use amoxide::vars::{VarName, VarSet};
use amoxide::{AliasDetail, AliasName, AliasSet, Profile, ProjectAliases, TomlAlias};

#[test]
fn test_flatten_merges_all_sections() {
    let mut export = ExportAll::default();
    export
        .global
        .aliases
        .insert("ll".into(), TomlAlias::Command("ls -lha".into()));
    export.profiles.push(Profile {
        name: "git".into(),
        aliases: {
            let mut a = AliasSet::default();
            a.insert("gs".into(), TomlAlias::Command("git status".into()));
            a
        },
        subcommands: Default::default(),
        vars: Default::default(),
    });
    export
        .local
        .aliases
        .insert("t".into(), TomlAlias::Command("cargo test".into()));
    let flat = export.flatten();
    assert_eq!(flat.len(), 3);
}

#[test]
fn flatten_precedence_local_over_profile_over_global() {
    let mut export = ExportAll::default();
    export.global.aliases.insert("x".into(), TomlAlias::Command("global".into()));
    let mut a = AliasSet::default();
    a.insert("x".into(), TomlAlias::Command("first".into()));
    export.profiles.push(Profile { name: "a".into(), aliases: a, subcommands: Default::default(), vars: Default::default() });
    let mut b = AliasSet::default();
    b.insert("x".into(), TomlAlias::Command("second".into()));
    b.insert("y".into(), TomlAlias::Command("only-b".into()));
    export.profiles.push(Profile { name: "b".into(), aliases: b, subcommands: Default::default(), vars: Default::default() });
    let flat = export.flatten();
    assert_eq!(flat.get(&AliasName::from("x")).unwrap().command(), "second");
    export.local.aliases.insert("x".into(), TomlAlias::Command("local".into()));
    let flat = export.flatten();
    assert_eq!(flat.get(&AliasName::from("x")).unwrap().command(), "local");
    assert_eq!(flat.get(&AliasName::from("y")).unwrap().command(), "only-b");
}

#[test]
fn flatten_vars_prefers_local() {
    let mut export = ExportAll::default();
    export.global.vars.insert(VarName::parse("editor").unwrap(), "vi".into());
    export.local.vars.insert(VarName::parse("editor").unwrap(), "hx".into());
    let flat = export.flatten_vars();
    assert_eq!(flat.get("editor").unwrap(), "hx");
    assert_eq!(flat.len(), 1);
}

#[test]
fn test_has_suspicious_chars_clean() {
    assert!(!has_suspicious_chars("git status"));
    assert!(!has_suspicious_chars("ls -lha"));
    assert!(!has_suspicious_chars("echo hello\nworld"));
    assert!(!has_suspicious_chars("col1\tcol2"));
}

#[test]
fn test_has_suspicious_chars_c0_controls() {
    assert!(has_suspicious_chars("foo\x00bar"));
    assert!(has_suspicious_chars("foo\x07bar"));
    assert!(has_suspicious_chars("foo\x1Bbar"));
}

#[test]
fn test_has_suspicious_chars_cr_allowed() {
    assert!(!has_suspicious_chars("foo\rbar"));
}

#[test]
fn test_has_suspicious_chars_del_and_c1() {
    assert!(has_suspicious_chars("foo\x7Fbar"));
    assert!(has_suspicious_chars("foo\u{0080}bar"));
    assert!(has_suspicious_chars("foo\u{009F}bar"));
    assert!(!has_suspicious_chars("foo\u{00A0}bar"));
}

#[test]
fn is_suspicious_on_chars() {
    assert!('\x1B'.is_suspicious());
    assert!(!'\n'.is_suspicious());
    assert!(!'a'.is_suspicious());
}

#[test]
fn test_scan_suspicious_clean_export() {
    let mut export = ExportAll::default();
    export
        .global
        .aliases
        .insert("ll".into(), TomlAlias::Command("ls -lha".into()));
    assert!(scan_suspicious(&export).is_empty());
}

#[test]
fn test_scan_suspicious_detects_command_escape() {
    let mut export = ExportAll::default();
    export.global.aliases.insert(
        "evil".into(),
        TomlAlias::Command("echo \x1B[31mhacked\x1B[0m".into()),
    );
    let findings = scan_suspicious(&export);
    assert_eq!(findings.len(), 1);
    assert_eq!(findings[0].scope.to_string(), "global");
    assert_eq!(findings[0].alias_name.to_string(), "evil");
    assert_eq!(findings[0].field.to_string(), "command");
}

#[test]
fn test_scan_suspicious_detects_name_escape() {
    let mut export = ExportAll::default();
    export
        .global
        .aliases
        .insert("foo\x07bar".into(), TomlAlias::Command("ls".into()));
    let findings = scan_suspicious(&export);
    assert_eq!(findings.len(), 1);
    assert_eq!(findings[0].field.to_string(), "name");
}

#[test]
fn test_scan_suspicious_detects_profile_name() {
    let export = ExportAll {
        profiles: vec![Profile {
            name: "evil\x1Bprofile".into(),
            aliases: AliasSet::default(),
            subcommands: Default::default(),
            vars: Default::default(),
        }],
        ..Default::default()
    };
    let findings = scan_suspicious(&export);
    assert_eq!(findings.len(), 1);
    assert_eq!(findings[0].field.to_string(), "profile_name");
}

#[test]
fn test_scan_suspicious_profile_aliases() {
    let export = ExportAll {
        profiles: vec![Profile {
            name: "git".into(),
            aliases: {
                let mut a = AliasSet::default();
                a.insert(
                    "gs".into(),
                    TomlAlias::Command("git \x1B[1mstatus\x1B[0m".into()),
                );
                a
            },
            subcommands: Default::default(),
            vars: Default::default(),
        }],
        ..Default::default()
    };
    let findings = scan_suspicious(&export);
    assert_eq!(findings.len(), 1);
    assert_eq!(findings[0].scope.to_string(), "profile:git");
    assert_eq!(findings[0].field.to_string(), "command");
}

#[test]
fn test_scan_suspicious_local_aliases() {
    let mut export = ExportAll::default();
    export
        .local
        .aliases
        .insert("test".into(), TomlAlias::Command("rm -rf / \x07".into()));
    let findings = scan_suspicious(&export);
    assert_eq!(findings.len(), 1);
    assert_eq!(findings[0].scope.to_string(), "local");
}

#[test]
fn scan_suspicious_vars_name_and_value() {
    let mut export = ExportAll::default();
    export.global.vars.insert(VarName::parse("editor").unwrap(), "vi\x1B".into());
    let findings = scan_suspicious(&export);
    assert_eq!(findings.len(), 1);
    assert_eq!(findings[0].field.to_string(), "var_value");
    assert_eq!(findings[0].raw_value.escaped(), "vi\\u{001B}");
}

#[test]
fn test_escape_for_display_clean() {
    assert_eq!(escape_for_display("hello world"), "hello world");
}

#[test]
fn test_escape_for_display_control_chars() {
    assert_eq!(escape_for_display("foo\x1B[31mbar"), "foo\\u{001B}[31mbar");
    assert_eq!(escape_for_display("\x00"), "\\u{0000}");
    assert_eq!(escape_for_display("\x7F"), "\\u{007F}");
}

#[test]
fn escape_for_display_c1_uses_four_hex_digits() {
    assert_eq!(escape_for_display("\u{009F}"), "\\u{009F}");
}

#[test]
fn test_escape_for_display_preserves_newline_tab() {
    assert_eq!(escape_for_display("a\nb\tc"), "a\nb\tc");
}

#[test]
fn test_sanitize_for_display_replaces_controls() {
    assert_eq!(sanitize_for_display("foo\x1Bbar"), "foo\u{FFFD}bar");
    assert_eq!(sanitize_for_display("\x07test"), "\u{FFFD}test");
}

#[test]
fn test_sanitize_for_display_preserves_clean() {
    assert_eq!(sanitize_for_display("hello\nworld"), "hello\nworld");
}

#[test]
fn sanitize_leaves_nothing_suspicious() {
    let s = sanitize_for_display("a\x1B\x07\u{0085}b");
    assert!(!has_suspicious_chars(&s));
}

#[test]
fn test_render_suspicious_warning_output() {
    let findings = vec![SuspiciousAlias::global_command(
        "evil",
        "echo \x1B[31mhacked",
    )];
    let output = render_suspicious_warning(&findings);
    assert!(output.contains("WARNING"));
    assert!(output.contains("global"));
    assert!(output.contains("evil"));
    assert!(output.contains("\\u{001B}"));
    assert!(output.contains("--yes --trust"));
}

#[test]
fn test_render_suspicious_warning_multiple_findings() {
    let findings = vec![
        SuspiciousAlias::global_command("a", "\x07beep"),
        SuspiciousAlias::profile_name("evil\x1Bname"),
    ];
    let output = render_suspicious_warning(&findings);
    assert!(output.contains("global"));
    assert!(output.contains("profile:evil"));
    assert!(output.contains("profile_name"));
}

#[test]
fn render_suspicious_warning_omits_alias_line_for_profile_name() {
    let findings = vec![SuspiciousAlias::profile_name("p\x07")];
    let output = render_suspicious_warning(&findings);
    assert!(!output.contains("  alias:"));
    assert!(output.contains("  safe-escaped: p\u{FFFD}\n"));
}

#[test]
fn test_flatten_subcommands_merges_all_scopes() {
    let mut export = ExportAll::default();
    export.global.subcommands.insert(
        "jj:ab".into(),
        TomlSubcommand::Expansion(vec!["abandon".into()]),
    );
    export.profiles.push(Profile {
        name: "vcs".into(),
        aliases: AliasSet::default(),
        subcommands: {
            let mut s = SubcommandSet::new();
            s.insert("jj:d".into(), TomlSubcommand::Expansion(vec!["diff".into()]));
            s
        },
        vars: Default::default(),
    });
    export.local.subcommands.insert(
        "git:psh".into(),
        TomlSubcommand::Expansion(vec!["push".into()]),
    );

    let flat = export.flatten_subcommands();
    assert_eq!(flat.len(), 3);
    assert!(flat.contains_key("jj:ab"));
    assert!(flat.contains_key("jj:d"));
    assert!(flat.contains_key("git:psh"));
}

#[test]
fn test_flatten_subcommands_local_wins_over_global() {
    let mut export = ExportAll::default();
    export.global.subcommands.insert(
        "jj:ab".into(),
        TomlSubcommand::Expansion(vec!["abandon".into()]),
    );
    export.local.subcommands.insert(
        "jj:ab".into(),
        TomlSubcommand::Expansion(vec!["abandon", "!"].into_iter().map(String::from).collect()),
    );

    let flat = export.flatten_subcommands();
    assert_eq!(
        flat.get("jj:ab").unwrap(),
        &TomlSubcommand::Expansion(vec!["abandon".to_string(), "!".to_string()])
    );
}

#[test]
fn test_merge_check_new_entries() {
    let current = SubcommandSet::new();
    let mut incoming = SubcommandSet::new();
    incoming.insert(
        "jj:ab".into(),
        TomlSubcommand::Expansion(vec!["abandon".into()]),
    );

    let result = subcommand_merge_check(&current, &incoming);
    assert_eq!(result.new_subcommands.len(), 1);
    assert!(result.conflicts.is_empty());
}

#[test]
fn exchange_test_merge_check_conflict() {
    let mut current = SubcommandSet::new();
    current.insert(
        "jj:ab".into(),
        TomlSubcommand::Expansion(vec!["abandon".into()]),
    );
    let mut incoming = SubcommandSet::new();
    incoming.insert(
        "jj:ab".into(),
        TomlSubcommand::Expansion(
            vec!["abandon", "--detach"]
                .into_iter()
                .map(String::from)
                .collect(),
        ),
    );

    let result = subcommand_merge_check(&current, &incoming);
    assert!(result.new_subcommands.is_empty());
    assert_eq!(result.conflicts.len(), 1);
    assert_eq!(result.conflicts[0].key, "jj:ab");
}

#[test]
fn test_merge_check_identical_entry_skipped() {
    let mut current = SubcommandSet::new();
    current.insert(
        "jj:ab".into(),
        TomlSubcommand::Expansion(vec!["abandon".into()]),
    );
    let mut incoming = SubcommandSet::new();
    incoming.insert(
        "jj:ab".into(),
        TomlSubcommand::Expansion(vec!["abandon".into()]),
    );

    let result = subcommand_merge_check(&current, &incoming);
    assert!(result.new_subcommands.is_empty());
    assert!(result.conflicts.is_empty());
}

#[test]
fn subcommand_merge_check_description_change_is_conflict() {
    let mut current = SubcommandSet::new();
    current.insert(
        "jj:ab".into(),
        TomlSubcommand::Detailed(SubcommandDetail {
            expansions: vec!["abandon".into()],
            description: Some("old".into()),
        }),
    );
    let mut incoming = SubcommandSet::new();
    incoming.insert(
        "jj:ab".into(),
        TomlSubcommand::Detailed(SubcommandDetail {
            expansions: vec!["abandon".into()],
            description: Some("new".into()),
        }),
    );
    let result = subcommand_merge_check(&current, &incoming);
    assert!(result.new_subcommands.is_empty());
    assert_eq!(result.conflicts.len(), 1);
}

#[test]
fn var_merge_check_splits_new_and_conflicting() {
    let mut current = VarSet::default();
    current.insert(VarName::parse("a").unwrap(), "1".into());
    current.insert(VarName::parse("b").unwrap(), "2".into());
    let mut incoming = VarSet::default();
    incoming.insert(VarName::parse("a").unwrap(), "1".into());
    incoming.insert(VarName::parse("b").unwrap(), "3".into());
    incoming.insert(VarName::parse("c").unwrap(), "4".into());
    let result = var_merge_check(&current, &incoming);
    assert_eq!(result.new_vars.len(), 1);
    assert_eq!(result.new_vars.get("c").unwrap(), "4");
    assert_eq!(result.conflicts.len(), 1);
    assert_eq!(result.conflicts[0].name.as_str(), "b");
    assert_eq!(result.conflicts[0].current, "2");
    assert_eq!(result.conflicts[0].incoming, "3");
}

#[test]
fn test_render_import_summary_new_only() {
    let mut new_aliases = AliasSet::default();
    new_aliases.insert("ll".into(), TomlAlias::Command("ls -lha".into()));
    let result = MergeResult {
        new_aliases,
        conflicts: vec![],
    };
    let output = render_import_summary("global", &result);
    assert!(output.contains("global"));
    assert!(output.contains("1 aliases"));
    assert!(output.contains("ll"));
    assert!(output.contains("ls -lha"));
}

#[test]
fn render_import_summary_exact_text() {
    let mut new_aliases = AliasSet::default();
    new_aliases.insert("ll".into(), TomlAlias::Command("ls -lha".into()));
    let result = MergeResult { new_aliases, conflicts: vec![] };
    assert_eq!(
        render_import_summary("global", &result),
        "Importing \"global\" (1 aliases)\n\n  new:\n    ll \u{2192} ls -lha\n"
    );
}

#[test]
fn test_render_import_summary_with_conflicts() {
    let result = MergeResult {
        new_aliases: AliasSet::default(),
        conflicts: vec![AliasConflict {
            name: AliasName::from("gs"),
            current: TomlAlias::Command("git status".into()),
            incoming: TomlAlias::Command("git status --short".into()),
        }],
    };
    let output = render_import_summary("global", &result);
    assert!(output.contains("1 conflict"));
    assert!(output.contains("gs"));
    assert!(output.contains("git status --short"));
}

#[test]
fn render_import_summary_pluralises_conflicts() {
    let c = |n: &str| AliasConflict {
        name: AliasName::from(n),
        current: TomlAlias::Command("a".into()),
        incoming: TomlAlias::Command("b".into()),
    };
    let result = MergeResult { new_aliases: AliasSet::default(), conflicts: vec![c("x"), c("y")] };
    let output = render_import_summary("local", &result);
    assert!(output.contains("(2 aliases)"));
    assert!(output.contains("2 conflicts:"));
}

#[test]
fn test_render_import_summary_subcommands_new_only() {
    let mut new_subcommands = SubcommandSet::new();
    new_subcommands.insert(
        "jj:ab".into(),
        TomlSubcommand::Expansion(vec!["abandon".into()]),
    );
    let result = SubcommandMergeResult {
        new_subcommands,
        conflicts: vec![],
    };
    let output = render_import_summary_subcommands("global", &result);
    assert!(output.contains("global"));
    assert!(output.contains("1 entries"));
    assert!(output.contains("jj:ab"));
    assert!(output.contains("abandon"));
}

#[test]
fn test_render_import_summary_subcommands_with_conflicts() {
    let result = SubcommandMergeResult {
        new_subcommands: SubcommandSet::new(),
        conflicts: vec![SubcommandConflict {
            key: "jj:ab".into(),
            current: TomlSubcommand::Expansion(vec!["abandon".into()]),
            incoming: TomlSubcommand::Expansion(vec!["abandon".into(), "--detach".into()]),
        }],
    };
    let output = render_import_summary_subcommands("global", &result);
    assert!(output.contains("1 conflict"));
    assert!(output.contains("jj:ab"));
    assert!(output.contains("--detach"));
}

#[test]
fn render_import_summary_vars_lists_both_values() {
    let result = VarMergeResult {
        new_vars: VarSet::default(),
        conflicts: vec![VarConflict {
            name: VarName::parse("editor").unwrap(),
            current: "vi".into(),
            incoming: "hx".into(),
        }],
    };
    let output = render_import_summary_vars("global", &result);
    assert_eq!(
        output,
        "Importing variables into \"global\" (1 entries)\n\n  1 conflict:\n\n    editor:\n      - vi\n      + hx\n"
    );
}

#[test]
fn test_scan_suspicious_subcommand_key() {
    let mut export = ExportAll::default();
    export.global.subcommands.insert(
        "jj:\x1Bab".into(),
        TomlSubcommand::Expansion(vec!["abandon".into()]),
    );
    let findings = scan_suspicious(&export);
    assert_eq!(findings.len(), 1);
    assert_eq!(findings[0].field.to_string(), "subcommand_key");
    assert_eq!(findings[0].scope.to_string(), "global");
}

#[test]
fn test_scan_suspicious_subcommand_expansion() {
    let mut export = ExportAll::default();
    export.local.subcommands.insert(
        "jj:ab".into(),
        TomlSubcommand::Expansion(vec!["aban\x07don".into()]),
    );
    let findings = scan_suspicious(&export);
    assert_eq!(findings.len(), 1);
    assert_eq!(findings[0].field.to_string(), "subcommand_expansion");
    assert_eq!(findings[0].scope.to_string(), "local");
}

#[test]
fn test_scan_suspicious_profile_subcommand() {
    let export = ExportAll {
        profiles: vec![Profile {
            name: "vcs".into(),
            aliases: AliasSet::default(),
            subcommands: {
                let mut s = SubcommandSet::new();
                s.insert(
                    "jj:ab".into(),
                    TomlSubcommand::Expansion(vec!["aban\x1Bdon".into()]),
                );
                s
            },
            vars: Default::default(),
        }],
        ..Default::default()
    };
    let findings = scan_suspicious(&export);
    assert_eq!(findings.len(), 1);
    assert_eq!(findings[0].scope.to_string(), "profile:vcs");
    assert_eq!(findings[0].field.to_string(), "subcommand_expansion");
}

#[test]
fn test_export_all_is_empty_false_with_global_subcommands() {
    let mut export = ExportAll::default();
    export.global.subcommands.insert(
        "jj:ab".into(),
        TomlSubcommand::Expansion(vec!["abandon".into()]),
    );
    assert!(!export.is_empty());
}

#[test]
fn test_export_all_is_empty_false_with_local_subcommands() {
    let mut export = ExportAll::default();
    export.local.subcommands.insert(
        "git:psh".into(),
        TomlSubcommand::Expansion(vec!["push".into()]),
    );
    assert!(!export.is_empty());
}

#[test]
fn export_all_default_is_empty() {
    assert!(ExportAll::default().is_empty());
}

#[test]
fn test_base64_roundtrip() {
    let original = "[aliases]\nll = \"ls -lha\"\n";
    let encoded = base64_encode(original);
    let decoded = base64_decode(&encoded).unwrap();
    assert_eq!(decoded, original);
}

#[test]
fn base64_encode_known_value() {
    assert_eq!(base64_encode("hi"), "aGk=");
    assert_eq!(base64_decode("  aGk=\n").unwrap(), "hi");
}

#[test]
fn test_base64_decode_invalid_input() {
    let result = base64_decode("not-valid-base64!!!");
    assert!(result.is_err());
}

#[test]
fn render_import_summary_description_only_conflict_omits_command_lines() {
    let result = MergeResult {
        new_aliases: AliasSet::default(),
        conflicts: vec![AliasConflict {
            name: AliasName::from("gs"),
            current: TomlAlias::Detailed(AliasDetail {
                command: "git status".into(),
                description: Some("short".into()),
                raw: false,
            }),
            incoming: TomlAlias::Detailed(AliasDetail {
                command: "git status".into(),
                description: Some("detailed status".into()),
                raw: false,
            }),
        }],
    };
    let output = render_import_summary("global", &result);
    let command_lines: Vec<&str> = output
        .lines()
        .filter(|l| l.trim_start().starts_with("- git") || l.trim_start().starts_with("+ git"))
        .collect();
    assert!(
        command_lines.is_empty(),
        "expected no command lines for description-only conflict, got:\n{output}"
    );
    assert!(output.contains("short"));
    assert!(output.contains("detailed status"));
}

#[test]
fn render_import_summary_subcommands_expansion_only_conflict_omits_expansion_lines() {
    let result = SubcommandMergeResult {
        new_subcommands: SubcommandSet::new(),
        conflicts: vec![SubcommandConflict {
            key: "jj:ab".into(),
            current: TomlSubcommand::Detailed(SubcommandDetail {
                expansions: vec!["abandon".into()],
                description: Some("old".into()),
            }),
            incoming: TomlSubcommand::Detailed(SubcommandDetail {
                expansions: vec!["abandon".into()],
                description: Some("new".into()),
            }),
        }],
    };
    let output = render_import_summary_subcommands("global", &result);
    let expansion_lines: Vec<&str> = output
        .lines()
        .filter(|l| {
            l.trim_start().starts_with("- abandon") || l.trim_start().starts_with("+ abandon")
        })
        .collect();
    assert!(
        expansion_lines.is_empty(),
        "expected no expansion lines for description-only conflict, got:\n{output}"
    );
}

#[test]
fn select_import_rejects_unknown_version() {
    let mut export = ExportAll::default();
    export.meta.version = 99;
    let err = select_import(Some(Ok(export)), None, None).unwrap_err();
    assert_eq!(err, ImportError::UnsupportedVersion(99));
    let msg = err.to_string();
    assert!(msg.contains("unsupported export format version"));
    assert!(msg.contains("99"));
}

#[test]
fn select_import_falls_back_to_raw_file() {
    let mut raw = ProjectAliases::default();
    raw.aliases.insert("t".into(), TomlAlias::Command("cargo test".into()));
    let legacy = ExportAllV1 {
        global_aliases: AliasSet::default(),
        global_subcommands: SubcommandSet::new(),
        profiles: vec![],
        local_aliases: AliasSet::default(),
        local_subcommands: SubcommandSet::new(),
    };
    let parsed = select_import(None, Some(legacy), Some(raw)).unwrap();
    assert_eq!(parsed.source, ParseSource::RawAliasesFile);
    assert_eq!(parsed.export.local.aliases.len(), 1);
    assert!(parsed.export.profiles.is_empty());
}

#[test]
fn select_import_nothing_found() {
    let err = select_import(None, None, Some(ProjectAliases::default())).unwrap_err();
    assert_eq!(err, ImportError::NoAliases);
    assert!(err.to_string().contains("no aliases found"));
}

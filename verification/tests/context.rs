use amoxide::alias::{AliasDetail, AliasName, AliasSet, TomlAlias};
use amoxide::context::{
    render, render_aliases_table, render_invalid, render_preamble, render_shadow_brief,
    render_shadow_verbose, render_variables, ChainLayer, LayerInputs, PrecedenceChain,
    render_project_trust_notice, ProjectTrustNotice, ProjectTrustReason, RenderOptions,
};
use amoxide::precedence::{
    Diagnostic, EffectiveEntry, EntryKind, OriginScope, PrecedenceDiff, ProfileLayer,
    ResolveOutcome,
};
use amoxide::subcommand::{SubcommandEntry, SubcommandSet, TomlSubcommand};
use amoxide::vars::{VarName, VarSet};

fn aset(pairs: &[(&str, &str)]) -> AliasSet {
    let mut s = AliasSet::default();
    for (n, c) in pairs {
        s.insert(AliasName::from(*n), TomlAlias::Command((*c).into()));
    }
    s
}

fn entry(name: &str, cmd: &str) -> EffectiveEntry {
    EffectiveEntry {
        name: name.into(),
        kind: EntryKind::Alias(TomlAlias::Command(cmd.into())),
        hash: "x".into(),
    }
}

fn chain(layers: Vec<ChainLayer>) -> PrecedenceChain {
    PrecedenceChain { layers }
}

fn layers_no_aliases<'a>(
    global_vars: &'a VarSet,
    profiles: &'a [ProfileLayer],
    project_vars: &'a VarSet,
    empty_aliases: &'a AliasSet,
    empty_subs: &'a SubcommandSet,
) -> LayerInputs<'a> {
    LayerInputs {
        global_aliases: empty_aliases,
        global_subcommands: empty_subs,
        global_vars,
        profile_layers: profiles,
        project_aliases: empty_aliases,
        project_subcommands: empty_subs,
        project_vars,
    }
}

fn vset(pairs: &[(&str, &str)]) -> VarSet {
    let mut s = VarSet::default();
    for (n, v) in pairs {
        s.insert(VarName::parse(n).unwrap(), (*v).to_string());
    }
    s
}


#[test]
fn aliases_aliases_table_sorted_by_name_with_origin_from_layers() {
    let global = aset(&[("ll", "ls -lha")]);
    let project = aset(&[("f", "cargo fmt")]);
    let global_subs = SubcommandSet::new();
    let global_vars = VarSet::default();
    let project_subs = SubcommandSet::new();
    let project_vars = VarSet::default();
    let layers = LayerInputs {
        global_aliases: &global,
        global_subcommands: &global_subs,
        global_vars: &global_vars,
        profile_layers: &[],
        project_aliases: &project,
        project_subcommands: &project_subs,
        project_vars: &project_vars,
    };
    let effective = vec![entry("ll", "ls -lha"), entry("f", "cargo fmt")];
    let out = render_aliases_table(&effective, &layers);
    let f_idx = out.find("| f ").unwrap();
    let ll_idx = out.find("| ll ").unwrap();
    assert!(f_idx < ll_idx, "rows must be alphabetical: {out}");
    assert!(out.contains("| project"), "f's from must be project: {out}");
    assert!(out.contains("| global"), "ll's from must be global: {out}");
}


#[test]
fn aliases_aliases_table_skips_subcommand_key_entries() {
    let global = AliasSet::default();
    let global_subs = SubcommandSet::new();
    let global_vars = VarSet::default();
    let project = AliasSet::default();
    let project_subs = SubcommandSet::new();
    let project_vars = VarSet::default();
    let layers = LayerInputs {
        global_aliases: &global,
        global_subcommands: &global_subs,
        global_vars: &global_vars,
        profile_layers: &[],
        project_aliases: &project,
        project_subcommands: &project_subs,
        project_vars: &project_vars,
    };
    let effective = vec![EffectiveEntry {
        name: "git:pl".into(),
        kind: EntryKind::SubcommandKey {
            longs: vec!["pull".into(), "--rebase".into()],
        },
        hash: "x".into(),
    }];
    let out = render_aliases_table(&effective, &layers);
    assert!(
        !out.contains("git:pl"),
        "tracking entries must not appear: {out}"
    );
    assert!(
        !out.contains("| pl "),
        "tracking entries must not appear: {out}"
    );
}


#[test]
fn aliases_aliases_table_flattens_subcommand_wrappers() {
    let global = AliasSet::default();
    let mut global_subs = SubcommandSet::new();
    global_subs
        .insert("git:pl".into(), TomlSubcommand::Expansion(vec![]));
    global_subs
        .insert("git:psh".into(), TomlSubcommand::Expansion(vec![]));
    let global_vars = VarSet::default();
    let project = AliasSet::default();
    let project_subs = SubcommandSet::new();
    let project_vars = VarSet::default();
    let layers = LayerInputs {
        global_aliases: &global,
        global_subcommands: &global_subs,
        global_vars: &global_vars,
        profile_layers: &[],
        project_aliases: &project,
        project_subcommands: &project_subs,
        project_vars: &project_vars,
    };
    let effective = vec![EffectiveEntry {
        name: "git".into(),
        kind: EntryKind::SubcommandWrapper {
            program: "git".into(),
            entries: vec![
                SubcommandEntry {
                    program: "git".into(),
                    short_subcommands: vec!["pl".into()],
                    long_subcommands: vec!["pull --rebase".into()],
                    description: None,
                },
                SubcommandEntry {
                    program: "git".into(),
                    short_subcommands: vec!["psh".into()],
                    long_subcommands: vec!["push".into()],
                    description: None,
                },
            ],
            base_cmd: None,
        },
        hash: "x".into(),
    }];
    let out = render_aliases_table(&effective, &layers);
    assert!(out.contains("| git pl "), "must flatten subcommand: {out}");
    assert!(
        out.contains("git pull --rebase"),
        "expansion must be full surface form: {out}"
    );
    assert!(out.contains("| git psh "), "must flatten subcommand: {out}");
    assert!(
        out.contains("| git push "),
        "expansion must be full surface form: {out}"
    );
    assert!(
        !out.contains("| git |"),
        "the wrapper row itself must not appear"
    );
}


#[test]
fn aliases_table_attributes_alias_to_last_profile_in_slice_when_two_profiles_share_name() {
    // Engine treats profile_layers[i+1] as higher precedence than [i].
    // With layers [git, rust] both defining `x`, the winner is rust.
    // The `from` cell must say `profile:rust`, not `profile:git`.
    let global = AliasSet::default();
    let project = AliasSet::default();
    let git = ProfileLayer {
        name: "git".into(),
        aliases: aset(&[("x", "git-x")]),
        subcommands: SubcommandSet::new(),
        vars: VarSet::default(),
    };
    let rust = ProfileLayer {
        name: "rust".into(),
        aliases: aset(&[("x", "rust-x")]),
        subcommands: SubcommandSet::new(),
        vars: VarSet::default(),
    };
    let profiles = vec![git, rust];
    let global_subs = SubcommandSet::new();
    let global_vars = VarSet::default();
    let project_subs = SubcommandSet::new();
    let project_vars = VarSet::default();
    let layers = LayerInputs {
        global_aliases: &global,
        global_subcommands: &global_subs,
        global_vars: &global_vars,
        profile_layers: &profiles,
        project_aliases: &project,
        project_subcommands: &project_subs,
        project_vars: &project_vars,
    };
    let effective = vec![entry("x", "rust-x")];
    let out = render_aliases_table(&effective, &layers);
    let data_line = out.lines().find(|l| l.contains("| x ")).unwrap();
    assert!(
        data_line.contains("profile:rust"),
        "winner is rust (last in slice); got: {data_line}"
    );
    assert!(
        !data_line.contains("profile:git"),
        "loser must not be attributed; got: {data_line}"
    );
}


#[test]
fn aliases_table_omits_description_column_when_no_row_has_one() {
    let global = aset(&[("ll", "ls -lha")]);
    let global_subs = SubcommandSet::new();
    let global_vars = VarSet::default();
    let project = AliasSet::default();
    let project_subs = SubcommandSet::new();
    let project_vars = VarSet::default();
    let layers = LayerInputs {
        global_aliases: &global,
        global_subcommands: &global_subs,
        global_vars: &global_vars,
        profile_layers: &[],
        project_aliases: &project,
        project_subcommands: &project_subs,
        project_vars: &project_vars,
    };
    let effective = vec![entry("ll", "ls -lha")];
    let out = render_aliases_table(&effective, &layers);
    let header = out.lines().find(|l| l.starts_with("| name")).unwrap();
    assert!(
        !header.contains("description"),
        "header must stay 3-column when no descriptions are present: {header}"
    );
}


#[test]
fn aliases_table_surfaces_description_for_aliases_when_any_row_has_one() {
    let mut global = AliasSet::default();
    global.insert(
        AliasName::from("t"),
        TomlAlias::Detailed(AliasDetail {
            command: "cargo test --all-features".into(),
            description: Some("run the full test matrix".into()),
            raw: false,
        }),
    );
    // Second alias with no description — must still render with an empty
    // description cell, not be dropped or break column alignment.
    global.insert(AliasName::from("ll"), TomlAlias::Command("ls -lha".into()));
    let global_subs = SubcommandSet::new();
    let global_vars = VarSet::default();
    let project = AliasSet::default();
    let project_subs = SubcommandSet::new();
    let project_vars = VarSet::default();
    let layers = LayerInputs {
        global_aliases: &global,
        global_subcommands: &global_subs,
        global_vars: &global_vars,
        profile_layers: &[],
        project_aliases: &project,
        project_subcommands: &project_subs,
        project_vars: &project_vars,
    };
    let effective = vec![
        EffectiveEntry {
            name: "t".into(),
            kind: EntryKind::Alias(global.get(&AliasName::from("t")).unwrap().clone()),
            hash: "x".into(),
        },
        EffectiveEntry {
            name: "ll".into(),
            kind: EntryKind::Alias(
                global.get(&AliasName::from("ll")).unwrap().clone(),
            ),
            hash: "x".into(),
        },
    ];
    let out = render_aliases_table(&effective, &layers);
    let header = out.lines().find(|l| l.starts_with("| name")).unwrap();
    assert!(
        header.contains("description"),
        "header must include description column when any row has one: {header}"
    );
    let t_row = out.lines().find(|l| l.contains("| t ")).unwrap();
    assert!(
        t_row.contains("run the full test matrix"),
        "described alias must carry its description in the row: {t_row}"
    );
    let ll_row = out.lines().find(|l| l.contains("| ll ")).unwrap();
    // 4 columns ⇒ 5 unescaped pipes per row (leading + 3 separators + trailing).
    let unescaped_pipes = ll_row
        .chars()
        .zip(std::iter::once(' ').chain(ll_row.chars()))
        .filter(|(c, prev)| *c == '|' && *prev != '\\')
        .count();
    assert_eq!(
        unescaped_pipes, 5,
        "row without a description must still emit an empty 4th cell: {ll_row}"
    );
}


#[test]
fn aliases_table_surfaces_subcommand_descriptions() {
    let global = AliasSet::default();
    let mut global_subs = SubcommandSet::new();
    global_subs
        .insert("git:pl".into(), TomlSubcommand::Expansion(vec![]));
    let global_vars = VarSet::default();
    let project = AliasSet::default();
    let project_subs = SubcommandSet::new();
    let project_vars = VarSet::default();
    let layers = LayerInputs {
        global_aliases: &global,
        global_subcommands: &global_subs,
        global_vars: &global_vars,
        profile_layers: &[],
        project_aliases: &project,
        project_subcommands: &project_subs,
        project_vars: &project_vars,
    };
    let effective = vec![EffectiveEntry {
        name: "git".into(),
        kind: EntryKind::SubcommandWrapper {
            program: "git".into(),
            entries: vec![SubcommandEntry {
                program: "git".into(),
                short_subcommands: vec!["pl".into()],
                long_subcommands: vec!["pull --rebase".into()],
                description: Some("rebase-based pull, never merge".into()),
            }],
            base_cmd: None,
        },
        hash: "x".into(),
    }];
    let out = render_aliases_table(&effective, &layers);
    assert!(
        out.contains("rebase-based pull, never merge"),
        "subcommand description must surface in the row: {out}"
    );
}


#[test]
fn aliases_aliases_table_escapes_pipe_characters_in_cells() {
    let global = aset(&[("filter", "rg foo | rg bar")]);
    let global_subs = SubcommandSet::new();
    let global_vars = VarSet::default();
    let project = AliasSet::default();
    let project_subs = SubcommandSet::new();
    let project_vars = VarSet::default();
    let layers = LayerInputs {
        global_aliases: &global,
        global_subcommands: &global_subs,
        global_vars: &global_vars,
        profile_layers: &[],
        project_aliases: &project,
        project_subcommands: &project_subs,
        project_vars: &project_vars,
    };
    let effective = vec![entry("filter", "rg foo | rg bar")];
    let out = render_aliases_table(&effective, &layers);
    assert!(
        out.contains(r"rg foo \| rg bar"),
        "pipe in expansion must be escaped as \\|: {out}"
    );
    // Column count check: every row must still have exactly 3 unescaped pipes (4 columns delimited by 3 separators when counting opens/closes).
    // Simpler: confirm we don't have 4 unescaped pipes on the row.
    let data_line = out.lines().find(|l| l.contains("filter")).unwrap();
    let unescaped_pipes = data_line
        .chars()
        .zip(std::iter::once(' ').chain(data_line.chars()))
        .filter(|(c, prev)| *c == '|' && *prev != '\\')
        .count();
    assert_eq!(unescaped_pipes, 4, "data row must have exactly 4 unescaped pipes (3 column boundaries + leading/trailing): {data_line}");
}


#[test]
fn invalid_invalid_section_empty_when_no_diagnostics() {
    let out = render_invalid(&[]);
    assert!(out.is_empty(), "no diagnostics means no section: {out}");
}


#[test]
fn invalid_invalid_section_renders_diagnostic_messages() {
    let diags = vec![Diagnostic {
        message: "alias `cc` in profile:compile_help references undefined vars: opt-flags"
            .into(),
    }];
    let out = render_invalid(&diags);
    assert!(out.contains("## Invalid"), "section header: {out}");
    assert!(
        out.contains("alias `cc` in profile:compile_help"),
        "message text: {out}"
    );
    assert!(
        out.contains("undefined vars: opt-flags"),
        "message text: {out}"
    );
}


#[test]
fn invalid_invalid_section_emits_one_bullet_per_diagnostic() {
    let diags = vec![
        Diagnostic {
            message: "first message".into(),
        },
        Diagnostic {
            message: "second message".into(),
        },
    ];
    let out = render_invalid(&diags);
    // Count bullet lines (lines starting with "- ")
    let bullets = out.lines().filter(|l| l.starts_with("- ")).count();
    assert_eq!(bullets, 2, "expected 2 bullets, got: {out}");
    assert!(out.contains("- first message"));
    assert!(out.contains("- second message"));
}


#[test]
fn mod_render_assembles_all_sections_in_order_for_brief() {
    let global = aset(&[("ll", "ls -lha")]);
    let project = aset(&[("f", "cargo fmt")]);
    let global_subs = SubcommandSet::new();
    let global_vars = VarSet::default();
    let project_subs = SubcommandSet::new();
    let project_vars = VarSet::default();
    let layers = LayerInputs {
        global_aliases: &global,
        global_subcommands: &global_subs,
        global_vars: &global_vars,
        profile_layers: &[],
        project_aliases: &project,
        project_subcommands: &project_subs,
        project_vars: &project_vars,
    };
    let chain = PrecedenceChain {
        layers: vec![
            ChainLayer {
                scope: OriginScope::Project,
                priority: None,
            },
            ChainLayer {
                scope: OriginScope::Global,
                priority: None,
            },
        ],
    };

    let effective = vec![
        EffectiveEntry {
            name: "f".into(),
            kind: EntryKind::Alias(TomlAlias::Command("cargo fmt".into())),
            hash: "x".into(),
        },
        EffectiveEntry {
            name: "ll".into(),
            kind: EntryKind::Alias(TomlAlias::Command("ls -lha".into())),
            hash: "y".into(),
        },
    ];
    let outcome = ResolveOutcome {
        diff: PrecedenceDiff {
            added: effective,
            ..Default::default()
        },
        diagnostics: vec![],
    };

    let out = render(
        &"/tmp/x",
        &chain,
        &outcome,
        &layers,
        None,
        RenderOptions { verbose: false },
    );

    // Section presence
    assert!(out.contains("# amoxide aliases"), "preamble present: {out}");
    assert!(out.contains("## Aliases"), "aliases header present: {out}");
    // No variables section (none defined); note the preamble comment references
    // "## Variables" so we check for the standalone section header line.
    assert!(
        !out.contains("\n## Variables\n"),
        "no vars means no section: {out}"
    );
    // No shadowed section (no shadows)
    assert!(!out.contains("## Shadowed"), "no shadows: {out}");
    // No invalid section (brief mode)
    assert!(!out.contains("## Invalid"), "brief omits invalid: {out}");

    // Section order
    let preamble_idx = out.find("# amoxide aliases").unwrap();
    let aliases_idx = out.find("## Aliases").unwrap();
    assert!(preamble_idx < aliases_idx, "preamble before aliases");
}


#[test]
fn mod_render_includes_invalid_only_in_verbose_mode() {
    let global = AliasSet::default();
    let global_subs = SubcommandSet::new();
    let global_vars = VarSet::default();
    let project_aliases = AliasSet::default();
    let project_subs = SubcommandSet::new();
    let project_vars = VarSet::default();
    let layers = LayerInputs {
        global_aliases: &global,
        global_subcommands: &global_subs,
        global_vars: &global_vars,
        profile_layers: &[],
        project_aliases: &project_aliases,
        project_subcommands: &project_subs,
        project_vars: &project_vars,
    };
    let chain = PrecedenceChain {
        layers: vec![ChainLayer {
            scope: OriginScope::Global,
            priority: None,
        }],
    };
    let outcome = ResolveOutcome {
        diff: PrecedenceDiff::default(),
        diagnostics: vec![Diagnostic {
            message: "alias `cc` missing vars: x".into(),
        }],
    };

    let brief = render(
        &"/x",
        &chain,
        &outcome,
        &layers,
        None,
        RenderOptions { verbose: false },
    );
    let verbose = render(
        &"/x",
        &chain,
        &outcome,
        &layers,
        None,
        RenderOptions { verbose: true },
    );
    assert!(
        !brief.contains("## Invalid"),
        "brief hides invalid: {brief}"
    );
    assert!(
        verbose.contains("## Invalid"),
        "verbose shows invalid: {verbose}"
    );
    assert!(verbose.contains("alias `cc` missing vars: x"));
}


#[test]
fn preamble_preamble_starts_with_cwd_header() {
    let cwd = "/tmp/project";
    let c = chain(vec![ChainLayer {
        scope: OriginScope::Global,
        priority: None,
    }]);
    let out = render_preamble(cwd, &c, None);
    assert!(
        out.starts_with("# amoxide aliases (active set, cwd: /tmp/project)\n"),
        "got: {out}"
    );
}


#[test]
fn preamble_does_not_instruct_agent_to_compare_cwds() {
    // The agent can't change directories; comparing CWDs is incoherent
    // from its side. The top-line header still surfaces the cwd as
    // informational context, but no rule should ask the agent to act on it.
    let cwd = "/tmp/anywhere";
    let c = chain(vec![ChainLayer {
        scope: OriginScope::Global,
        priority: None,
    }]);
    let out = render_preamble(cwd, &c, None);
    assert!(
        !out.contains("## Where this snapshot applies"),
        "the CWD-anchoring section must not be rendered: {out}"
    );
    assert!(
        !out.contains("Compare your"),
        "must not ask the agent to compare CWDs: {out}"
    );
    assert!(
        !out.contains("Snapshot CWD"),
        "no separate `Snapshot CWD` label — the header line carries cwd already: {out}"
    );
}


#[test]
fn preamble_preamble_contains_all_five_usage_rules() {
    let cwd = "/x";
    let c = chain(vec![ChainLayer {
        scope: OriginScope::Global,
        priority: None,
    }]);
    let out = render_preamble(cwd, &c, None);
    assert!(out.contains("1. Recognise aliases by name match"), "rule 1");
    assert!(
        out.contains("2. Subcommand aliases are deceptive"),
        "rule 2"
    );
    assert!(
        out.contains("3. Recover from `command not found`"),
        "rule 3"
    );
    assert!(
        out.contains("4. In chat, the user's vocabulary is fine"),
        "rule 4"
    );
    assert!(out.contains("5. Aliases reveal user preference"), "rule 5");
    assert!(
        out.contains("describes an action in plain language"),
        "rule 5 first bullet (intent-match)"
    );
}


#[test]
fn preamble_preamble_omits_rule_5_trust_bullet_when_no_notice() {
    let cwd = "/x";
    let c = chain(vec![ChainLayer {
        scope: OriginScope::Global,
        priority: None,
    }]);
    let out = render_preamble(cwd, &c, None);
    assert!(
        !out.contains("`am trust` ask"),
        "rule 5 trust bullet should be absent when no untrusted project notice: {out}"
    );
}


#[test]
fn preamble_preamble_emits_rule_5_trust_bullet_when_notice_present() {
    let cwd = "/x";
    let c = chain(vec![ChainLayer {
        scope: OriginScope::Global,
        priority: None,
    }]);
    let notice = ProjectTrustNotice {
        path: "/x/.aliases".into(),
        reason: ProjectTrustReason::Untrusted,
    };
    let out = render_preamble(cwd, &c, Some(&notice));
    assert!(
        out.contains("`am trust` ask"),
        "rule 5 trust bullet should appear when notice present: {out}"
    );
    assert!(
        out.contains("`## Project aliases (not loaded)` below"),
        "rule 5 trust bullet points forward to the trust-notice section: {out}"
    );
}


#[test]
fn preamble_never_renders_precedence_chain() {
    // Every reader of the chain is already pre-resolved (the `from`
    // column on `## Aliases`, the per-row chains in `## Shadowed`), so
    // the line is dead weight in the snapshot.
    let c = chain(vec![
        ChainLayer {
            scope: OriginScope::Project,
            priority: None,
        },
        ChainLayer {
            scope: OriginScope::Profile("git".into()),
            priority: Some(2),
        },
        ChainLayer {
            scope: OriginScope::Global,
            priority: None,
        },
    ]);
    let out = render_preamble("/x", &c, None);
    assert!(
        !out.contains("Precedence (highest first):"),
        "precedence chain must not appear at all: {out}"
    );
    assert!(
        !out.contains("profile(git, prio 2)"),
        "no chain fragments either: {out}"
    );
}


#[test]
fn preamble_keeps_template_and_variable_format_notes() {
    // These two notes explain syntax the model can't infer from the
    // alias table alone, so they survive the variables-section drop.
    let c = chain(vec![ChainLayer {
        scope: OriginScope::Global,
        priority: None,
    }]);
    let out = render_preamble("/x", &c, None);
    assert!(
        out.contains("Templates: {{N}}"),
        "template note must remain: {out}"
    );
    assert!(
        out.contains("Variables: {{name}}"),
        "variable-substitution note must remain: {out}"
    );
    assert!(
        !out.contains("`## Variables` section"),
        "must not point at the now-deleted Variables section: {out}"
    );
}


#[test]
fn shadows_shadow_brief_empty_when_no_shadows() {
    let global = AliasSet::default();
    let project = aset(&[("f", "cargo fmt")]);
    let global_subs = SubcommandSet::new();
    let global_vars = VarSet::default();
    let project_subs = SubcommandSet::new();
    let project_vars = VarSet::default();
    let layers = LayerInputs {
        global_aliases: &global,
        global_subcommands: &global_subs,
        global_vars: &global_vars,
        profile_layers: &[],
        project_aliases: &project,
        project_subcommands: &project_subs,
        project_vars: &project_vars,
    };
    let out = render_shadow_brief(&layers);
    assert!(out.is_empty(), "no shadows means no section: {out}");
}


#[test]
fn shadows_shadow_brief_groups_by_loser_winner_pair() {
    // `f`, `t` both in profile:rust and project. project wins.
    let global = AliasSet::default();
    let project = aset(&[("f", "cargo fmt"), ("t", "cargo test")]);
    let rust = ProfileLayer {
        name: "rust".into(),
        aliases: aset(&[("f", "cargo fmt --check"), ("t", "cargo nextest")]),
        subcommands: SubcommandSet::new(),
        vars: VarSet::default(),
    };
    let global_subs = SubcommandSet::new();
    let global_vars = VarSet::default();
    let project_subs = SubcommandSet::new();
    let project_vars = VarSet::default();
    let profile_slice = vec![rust];
    let layers = LayerInputs {
        global_aliases: &global,
        global_subcommands: &global_subs,
        global_vars: &global_vars,
        profile_layers: &profile_slice,
        project_aliases: &project,
        project_subcommands: &project_subs,
        project_vars: &project_vars,
    };
    let out = render_shadow_brief(&layers);
    assert!(out.contains("## Shadowed"), "section header: {out}");
    assert!(
        out.contains("f, t — also defined in profile:rust, overridden by project"),
        "grouped names with loser/winner: {out}"
    );
    assert!(
        out.contains("(run `am context --verbose`"),
        "must include verbose pointer: {out}"
    );
}


#[test]
fn shadow_brief_with_two_profiles_sharing_name_attributes_last_in_slice_as_winner() {
    // Engine: profile_layers[i+1] wins over [i]. With [git, rust] both
    // defining `x`, rust wins. The brief should report git as loser and
    // rust as winner — not the other way around.
    let global = AliasSet::default();
    let git = ProfileLayer {
        name: "git".into(),
        aliases: aset(&[("x", "git-x")]),
        subcommands: SubcommandSet::new(),
        vars: VarSet::default(),
    };
    let rust = ProfileLayer {
        name: "rust".into(),
        aliases: aset(&[("x", "rust-x")]),
        subcommands: SubcommandSet::new(),
        vars: VarSet::default(),
    };
    let global_subs = SubcommandSet::new();
    let global_vars = VarSet::default();
    let project = AliasSet::default();
    let project_subs = SubcommandSet::new();
    let project_vars = VarSet::default();
    let profile_slice = vec![git, rust];
    let layers = LayerInputs {
        global_aliases: &global,
        global_subcommands: &global_subs,
        global_vars: &global_vars,
        profile_layers: &profile_slice,
        project_aliases: &project,
        project_subcommands: &project_subs,
        project_vars: &project_vars,
    };
    let out = render_shadow_brief(&layers);
    assert!(
        out.contains("x — also defined in profile:git, overridden by profile:rust"),
        "rust wins (later in slice), git is shadowed: {out}"
    );
}


#[test]
fn shadows_shadow_brief_multiple_losing_scopes_emit_separate_bullets() {
    // `x` exists in BOTH global and profile:git. profile:git wins.
    // Project doesn't define x at all.
    let global = aset(&[("x", "global-x")]);
    let git = ProfileLayer {
        name: "git".into(),
        aliases: aset(&[("x", "git-x")]),
        subcommands: SubcommandSet::new(),
        vars: VarSet::default(),
    };
    let global_subs = SubcommandSet::new();
    let global_vars = VarSet::default();
    let project_aliases = AliasSet::default();
    let project_subs = SubcommandSet::new();
    let project_vars = VarSet::default();
    let profile_slice = vec![git];
    let layers = LayerInputs {
        global_aliases: &global,
        global_subcommands: &global_subs,
        global_vars: &global_vars,
        profile_layers: &profile_slice,
        project_aliases: &project_aliases,
        project_subcommands: &project_subs,
        project_vars: &project_vars,
    };
    let out = render_shadow_brief(&layers);
    // x → loser global, winner profile:git
    assert!(
        out.contains("x — also defined in global, overridden by profile:git"),
        "expected grouping: {out}"
    );
}


#[test]
fn shadows_shadow_verbose_empty_when_no_shadows() {
    let global = AliasSet::default();
    let project = aset(&[("f", "cargo fmt")]);
    let global_subs = SubcommandSet::new();
    let global_vars = VarSet::default();
    let project_subs = SubcommandSet::new();
    let project_vars = VarSet::default();
    let layers = LayerInputs {
        global_aliases: &global,
        global_subcommands: &global_subs,
        global_vars: &global_vars,
        profile_layers: &[],
        project_aliases: &project,
        project_subcommands: &project_subs,
        project_vars: &project_vars,
    };
    let out = render_shadow_verbose(&layers);
    assert!(out.is_empty(), "no shadows means no section: {out}");
}


#[test]
fn shadows_shadow_verbose_renders_full_table() {
    let global = aset(&[("f", "cargo fmt --check")]);
    let project = aset(&[("f", "cargo fmt")]);
    let global_subs = SubcommandSet::new();
    let global_vars = VarSet::default();
    let project_subs = SubcommandSet::new();
    let project_vars = VarSet::default();
    let layers = LayerInputs {
        global_aliases: &global,
        global_subcommands: &global_subs,
        global_vars: &global_vars,
        profile_layers: &[],
        project_aliases: &project,
        project_subcommands: &project_subs,
        project_vars: &project_vars,
    };
    let out = render_shadow_verbose(&layers);
    assert!(out.contains("## Shadowed"), "header: {out}");
    assert!(
        out.contains("| name | expansion | from | shadowed by |"),
        "column header: {out}"
    );
    assert!(
        out.contains("| f | cargo fmt --check | global | project |"),
        "shadow row: {out}"
    );
    // No verbose-pointer in verbose mode
    assert!(
        !out.contains("`am context --verbose`"),
        "no pointer in verbose mode: {out}"
    );
}


#[test]
fn shadows_shadow_verbose_escapes_pipes_in_cells() {
    let global = aset(&[("f", "echo a | rg b")]);
    let project = aset(&[("f", "cargo fmt")]);
    let global_subs = SubcommandSet::new();
    let global_vars = VarSet::default();
    let project_subs = SubcommandSet::new();
    let project_vars = VarSet::default();
    let layers = LayerInputs {
        global_aliases: &global,
        global_subcommands: &global_subs,
        global_vars: &global_vars,
        profile_layers: &[],
        project_aliases: &project,
        project_subcommands: &project_subs,
        project_vars: &project_vars,
    };
    let out = render_shadow_verbose(&layers);
    assert!(
        out.contains(r"echo a \| rg b"),
        "pipe in expansion must be escaped: {out}"
    );
}


#[test]
fn variables_variables_section_omitted_when_no_vars_anywhere() {
    let global = VarSet::default();
    let project = VarSet::default();
    let empty_aliases = AliasSet::default();
    let empty_subs = SubcommandSet::new();
    let layers = layers_no_aliases(&global, &[], &project, &empty_aliases, &empty_subs);
    let out = render_variables(&layers);
    assert!(out.is_empty(), "expected empty, got: {out}");
}


#[test]
fn variables_section_rendered_as_single_table_with_from_column() {
    let global = vset(&[("opt-flags", "-C opt-level=3")]);
    let project = VarSet::default();
    let empty_aliases = AliasSet::default();
    let empty_subs = SubcommandSet::new();
    let layers = layers_no_aliases(&global, &[], &project, &empty_aliases, &empty_subs);
    let out = render_variables(&layers);
    assert!(out.contains("## Variables"), "section header: {out}");
    let header = out.lines().find(|l| l.starts_with("| name")).unwrap();
    assert!(
        header.contains("from"),
        "table must carry a from column: {header}"
    );
    let row = out.lines().find(|l| l.contains("opt-flags")).unwrap();
    assert!(row.contains("-C opt-level=3"), "value: {row}");
    assert!(row.contains("global"), "from: {row}");
}


#[test]
fn variables_section_skips_empty_scopes_entirely() {
    // profile:git has no vars; only global does. The output must not
    // contain a per-scope subheading or any `(none)` placeholder.
    let global = vset(&[("opt-flags", "-C opt-level=3")]);
    let empty_subs = SubcommandSet::new();
    let empty_aliases = AliasSet::default();
    let profiles = vec![ProfileLayer {
        name: "git".into(),
        aliases: AliasSet::default(),
        subcommands: SubcommandSet::new(),
        vars: VarSet::default(),
    }];
    let project = VarSet::default();
    let layers = layers_no_aliases(&global, &profiles, &project, &empty_aliases, &empty_subs);
    let out = render_variables(&layers);
    assert!(
        !out.contains("### profile:git"),
        "empty scope must not get a subsection: {out}"
    );
    assert!(
        !out.contains("(none)"),
        "no `(none)` placeholder for empty scope: {out}"
    );
    assert!(!out.contains("### "), "no `###` subsections at all: {out}");
}


#[test]
fn variables_section_picks_highest_precedence_when_same_name_in_two_scopes() {
    // `foo` defined in global and profile:rust; profile wins, only one row.
    let global = vset(&[("foo", "global-value")]);
    let empty_subs = SubcommandSet::new();
    let empty_aliases = AliasSet::default();
    let profiles = vec![ProfileLayer {
        name: "rust".into(),
        aliases: AliasSet::default(),
        subcommands: SubcommandSet::new(),
        vars: vset(&[("foo", "rust-value")]),
    }];
    let project = VarSet::default();
    let layers = layers_no_aliases(&global, &profiles, &project, &empty_aliases, &empty_subs);
    let out = render_variables(&layers);
    let foo_rows: Vec<&str> = out.lines().filter(|l| l.contains("| foo ")).collect();
    assert_eq!(
        foo_rows.len(),
        1,
        "shadowed var must appear exactly once: {out}"
    );
    assert!(
        foo_rows[0].contains("rust-value"),
        "profile must win over global: {}",
        foo_rows[0]
    );
    assert!(
        foo_rows[0].contains("profile:rust"),
        "from must point at the winning scope: {}",
        foo_rows[0]
    );
    assert!(
        !out.contains("global-value"),
        "shadowed value must not appear at all: {out}"
    );
}


#[test]
fn variables_variables_section_escapes_pipe_characters_in_values() {
    let global = vset(&[("filter_cmd", "rg foo | rg bar")]);
    let empty_subs = SubcommandSet::new();
    let empty_aliases = AliasSet::default();
    let project = VarSet::default();
    let layers = layers_no_aliases(&global, &[], &project, &empty_aliases, &empty_subs);
    let out = render_variables(&layers);
    assert!(
        out.contains(r"rg foo \| rg bar"),
        "pipe in value must be escaped as \\|: {out}"
    );
    let data_line = out.lines().find(|l| l.contains("filter_cmd")).unwrap();
    let unescaped_pipes = data_line
        .chars()
        .zip(std::iter::once(' ').chain(data_line.chars()))
        .filter(|(c, prev)| *c == '|' && *prev != '\\')
        .count();
    assert_eq!(
        unescaped_pipes, 4,
        "data row must have exactly 4 unescaped pipes (3 columns: leading + 2 separators + trailing): {data_line}"
    );
}

#[test]
fn context_preamble_starts_with_cwd_header() {
    let cwd = "/tmp/project";
    let c = chain(vec![ChainLayer {
        scope: OriginScope::Global,
        priority: None,
    }]);
    let out = render_preamble(cwd, &c, None);
    assert!(
        out.starts_with("# amoxide aliases (active set, cwd: /tmp/project)\n"),
        "got: {out}"
    );
}

#[test]
fn context_preamble_contains_all_five_usage_rules() {
    let cwd = "/x";
    let c = chain(vec![ChainLayer {
        scope: OriginScope::Global,
        priority: None,
    }]);
    let out = render_preamble(cwd, &c, None);
    assert!(out.contains("1. Recognise aliases by name match"), "rule 1");
    assert!(
        out.contains("2. Subcommand aliases are deceptive"),
        "rule 2"
    );
    assert!(
        out.contains("3. Recover from `command not found`"),
        "rule 3"
    );
    assert!(
        out.contains("4. In chat, the user's vocabulary is fine"),
        "rule 4"
    );
    assert!(out.contains("5. Aliases reveal user preference"), "rule 5");
    assert!(
        out.contains("describes an action in plain language"),
        "rule 5 first bullet (intent-match)"
    );
}

#[test]
fn context_preamble_omits_rule_5_trust_bullet_when_no_notice() {
    let cwd = "/x";
    let c = chain(vec![ChainLayer {
        scope: OriginScope::Global,
        priority: None,
    }]);
    let out = render_preamble(cwd, &c, None);
    assert!(
        !out.contains("`am trust` ask"),
        "rule 5 trust bullet should be absent when no untrusted project notice: {out}"
    );
}

#[test]
fn context_preamble_emits_rule_5_trust_bullet_when_notice_present() {
    let cwd = "/x";
    let c = chain(vec![ChainLayer {
        scope: OriginScope::Global,
        priority: None,
    }]);
    let notice = ProjectTrustNotice {
        path: "/x/.aliases".into(),
        reason: ProjectTrustReason::Untrusted,
    };
    let out = render_preamble(cwd, &c, Some(&notice));
    assert!(
        out.contains("`am trust` ask"),
        "rule 5 trust bullet should appear when notice present: {out}"
    );
    assert!(
        out.contains("`## Project aliases (not loaded)` below"),
        "rule 5 trust bullet points forward to the trust-notice section: {out}"
    );
}

#[test]
fn context_aliases_table_sorted_by_name_with_origin_from_layers() {
    let global = aset(&[("ll", "ls -lha")]);
    let project = aset(&[("f", "cargo fmt")]);
    let global_subs = SubcommandSet::new();
    let global_vars = VarSet::default();
    let project_subs = SubcommandSet::new();
    let project_vars = VarSet::default();
    let layers = LayerInputs {
        global_aliases: &global,
        global_subcommands: &global_subs,
        global_vars: &global_vars,
        profile_layers: &[],
        project_aliases: &project,
        project_subcommands: &project_subs,
        project_vars: &project_vars,
    };
    let effective = vec![entry("ll", "ls -lha"), entry("f", "cargo fmt")];
    let out = render_aliases_table(&effective, &layers);
    let f_idx = out.find("| f ").unwrap();
    let ll_idx = out.find("| ll ").unwrap();
    assert!(f_idx < ll_idx, "rows must be alphabetical: {out}");
    assert!(out.contains("| project"), "f's from must be project: {out}");
    assert!(out.contains("| global"), "ll's from must be global: {out}");
}

#[test]
fn context_aliases_table_skips_subcommand_key_entries() {
    let global = AliasSet::default();
    let global_subs = SubcommandSet::new();
    let global_vars = VarSet::default();
    let project = AliasSet::default();
    let project_subs = SubcommandSet::new();
    let project_vars = VarSet::default();
    let layers = LayerInputs {
        global_aliases: &global,
        global_subcommands: &global_subs,
        global_vars: &global_vars,
        profile_layers: &[],
        project_aliases: &project,
        project_subcommands: &project_subs,
        project_vars: &project_vars,
    };
    let effective = vec![EffectiveEntry {
        name: "git:pl".into(),
        kind: EntryKind::SubcommandKey {
            longs: vec!["pull".into(), "--rebase".into()],
        },
        hash: "x".into(),
    }];
    let out = render_aliases_table(&effective, &layers);
    assert!(
        !out.contains("git:pl"),
        "tracking entries must not appear: {out}"
    );
    assert!(
        !out.contains("| pl "),
        "tracking entries must not appear: {out}"
    );
}

#[test]
fn context_aliases_table_flattens_subcommand_wrappers() {
    let global = AliasSet::default();
    let mut global_subs = SubcommandSet::new();
    global_subs
        .insert("git:pl".into(), TomlSubcommand::Expansion(vec![]));
    global_subs
        .insert("git:psh".into(), TomlSubcommand::Expansion(vec![]));
    let global_vars = VarSet::default();
    let project = AliasSet::default();
    let project_subs = SubcommandSet::new();
    let project_vars = VarSet::default();
    let layers = LayerInputs {
        global_aliases: &global,
        global_subcommands: &global_subs,
        global_vars: &global_vars,
        profile_layers: &[],
        project_aliases: &project,
        project_subcommands: &project_subs,
        project_vars: &project_vars,
    };
    let effective = vec![EffectiveEntry {
        name: "git".into(),
        kind: EntryKind::SubcommandWrapper {
            program: "git".into(),
            entries: vec![
                SubcommandEntry {
                    program: "git".into(),
                    short_subcommands: vec!["pl".into()],
                    long_subcommands: vec!["pull --rebase".into()],
                    description: None,
                },
                SubcommandEntry {
                    program: "git".into(),
                    short_subcommands: vec!["psh".into()],
                    long_subcommands: vec!["push".into()],
                    description: None,
                },
            ],
            base_cmd: None,
        },
        hash: "x".into(),
    }];
    let out = render_aliases_table(&effective, &layers);
    assert!(out.contains("| git pl "), "must flatten subcommand: {out}");
    assert!(
        out.contains("git pull --rebase"),
        "expansion must be full surface form: {out}"
    );
    assert!(out.contains("| git psh "), "must flatten subcommand: {out}");
    assert!(
        out.contains("| git push "),
        "expansion must be full surface form: {out}"
    );
    assert!(
        !out.contains("| git |"),
        "the wrapper row itself must not appear"
    );
}

#[test]
fn context_aliases_table_escapes_pipe_characters_in_cells() {
    let global = aset(&[("filter", "rg foo | rg bar")]);
    let global_subs = SubcommandSet::new();
    let global_vars = VarSet::default();
    let project = AliasSet::default();
    let project_subs = SubcommandSet::new();
    let project_vars = VarSet::default();
    let layers = LayerInputs {
        global_aliases: &global,
        global_subcommands: &global_subs,
        global_vars: &global_vars,
        profile_layers: &[],
        project_aliases: &project,
        project_subcommands: &project_subs,
        project_vars: &project_vars,
    };
    let effective = vec![entry("filter", "rg foo | rg bar")];
    let out = render_aliases_table(&effective, &layers);
    assert!(
        out.contains(r"rg foo \| rg bar"),
        "pipe in expansion must be escaped as \\|: {out}"
    );
    // Column count check: every row must still have exactly 3 unescaped pipes (4 columns delimited by 3 separators when counting opens/closes).
    // Simpler: confirm we don't have 4 unescaped pipes on the row.
    let data_line = out.lines().find(|l| l.contains("filter")).unwrap();
    let unescaped_pipes = data_line
        .chars()
        .zip(std::iter::once(' ').chain(data_line.chars()))
        .filter(|(c, prev)| *c == '|' && *prev != '\\')
        .count();
    assert_eq!(unescaped_pipes, 4, "data row must have exactly 4 unescaped pipes (3 column boundaries + leading/trailing): {data_line}");
}

#[test]
fn context_variables_section_omitted_when_no_vars_anywhere() {
    let global = VarSet::default();
    let project = VarSet::default();
    let empty_aliases = AliasSet::default();
    let empty_subs = SubcommandSet::new();
    let layers = layers_no_aliases(&global, &[], &project, &empty_aliases, &empty_subs);
    let out = render_variables(&layers);
    assert!(out.is_empty(), "expected empty, got: {out}");
}

#[test]
fn context_shadow_brief_empty_when_no_shadows() {
    let global = AliasSet::default();
    let project = aset(&[("f", "cargo fmt")]);
    let global_subs = SubcommandSet::new();
    let global_vars = VarSet::default();
    let project_subs = SubcommandSet::new();
    let project_vars = VarSet::default();
    let layers = LayerInputs {
        global_aliases: &global,
        global_subcommands: &global_subs,
        global_vars: &global_vars,
        profile_layers: &[],
        project_aliases: &project,
        project_subcommands: &project_subs,
        project_vars: &project_vars,
    };
    let out = render_shadow_brief(&layers);
    assert!(out.is_empty(), "no shadows means no section: {out}");
}

#[test]
fn context_shadow_brief_groups_by_loser_winner_pair() {
    // `f`, `t` both in profile:rust and project. project wins.
    let global = AliasSet::default();
    let project = aset(&[("f", "cargo fmt"), ("t", "cargo test")]);
    let rust = ProfileLayer {
        name: "rust".into(),
        aliases: aset(&[("f", "cargo fmt --check"), ("t", "cargo nextest")]),
        subcommands: SubcommandSet::new(),
        vars: VarSet::default(),
    };
    let global_subs = SubcommandSet::new();
    let global_vars = VarSet::default();
    let project_subs = SubcommandSet::new();
    let project_vars = VarSet::default();
    let profile_slice = vec![rust];
    let layers = LayerInputs {
        global_aliases: &global,
        global_subcommands: &global_subs,
        global_vars: &global_vars,
        profile_layers: &profile_slice,
        project_aliases: &project,
        project_subcommands: &project_subs,
        project_vars: &project_vars,
    };
    let out = render_shadow_brief(&layers);
    assert!(out.contains("## Shadowed"), "section header: {out}");
    assert!(
        out.contains("f, t — also defined in profile:rust, overridden by project"),
        "grouped names with loser/winner: {out}"
    );
    assert!(
        out.contains("(run `am context --verbose`"),
        "must include verbose pointer: {out}"
    );
}

#[test]
fn context_shadow_brief_multiple_losing_scopes_emit_separate_bullets() {
    // `x` exists in BOTH global and profile:git. profile:git wins.
    // Project doesn't define x at all.
    let global = aset(&[("x", "global-x")]);
    let git = ProfileLayer {
        name: "git".into(),
        aliases: aset(&[("x", "git-x")]),
        subcommands: SubcommandSet::new(),
        vars: VarSet::default(),
    };
    let global_subs = SubcommandSet::new();
    let global_vars = VarSet::default();
    let project_aliases = AliasSet::default();
    let project_subs = SubcommandSet::new();
    let project_vars = VarSet::default();
    let profile_slice = vec![git];
    let layers = LayerInputs {
        global_aliases: &global,
        global_subcommands: &global_subs,
        global_vars: &global_vars,
        profile_layers: &profile_slice,
        project_aliases: &project_aliases,
        project_subcommands: &project_subs,
        project_vars: &project_vars,
    };
    let out = render_shadow_brief(&layers);
    // x → loser global, winner profile:git
    assert!(
        out.contains("x — also defined in global, overridden by profile:git"),
        "expected grouping: {out}"
    );
}

#[test]
fn context_shadow_verbose_empty_when_no_shadows() {
    let global = AliasSet::default();
    let project = aset(&[("f", "cargo fmt")]);
    let global_subs = SubcommandSet::new();
    let global_vars = VarSet::default();
    let project_subs = SubcommandSet::new();
    let project_vars = VarSet::default();
    let layers = LayerInputs {
        global_aliases: &global,
        global_subcommands: &global_subs,
        global_vars: &global_vars,
        profile_layers: &[],
        project_aliases: &project,
        project_subcommands: &project_subs,
        project_vars: &project_vars,
    };
    let out = render_shadow_verbose(&layers);
    assert!(out.is_empty(), "no shadows means no section: {out}");
}

#[test]
fn context_shadow_verbose_renders_full_table() {
    let global = aset(&[("f", "cargo fmt --check")]);
    let project = aset(&[("f", "cargo fmt")]);
    let global_subs = SubcommandSet::new();
    let global_vars = VarSet::default();
    let project_subs = SubcommandSet::new();
    let project_vars = VarSet::default();
    let layers = LayerInputs {
        global_aliases: &global,
        global_subcommands: &global_subs,
        global_vars: &global_vars,
        profile_layers: &[],
        project_aliases: &project,
        project_subcommands: &project_subs,
        project_vars: &project_vars,
    };
    let out = render_shadow_verbose(&layers);
    assert!(out.contains("## Shadowed"), "header: {out}");
    assert!(
        out.contains("| name | expansion | from | shadowed by |"),
        "column header: {out}"
    );
    assert!(
        out.contains("| f | cargo fmt --check | global | project |"),
        "shadow row: {out}"
    );
    // No verbose-pointer in verbose mode
    assert!(
        !out.contains("`am context --verbose`"),
        "no pointer in verbose mode: {out}"
    );
}

#[test]
fn context_shadow_verbose_escapes_pipes_in_cells() {
    let global = aset(&[("f", "echo a | rg b")]);
    let project = aset(&[("f", "cargo fmt")]);
    let global_subs = SubcommandSet::new();
    let global_vars = VarSet::default();
    let project_subs = SubcommandSet::new();
    let project_vars = VarSet::default();
    let layers = LayerInputs {
        global_aliases: &global,
        global_subcommands: &global_subs,
        global_vars: &global_vars,
        profile_layers: &[],
        project_aliases: &project,
        project_subcommands: &project_subs,
        project_vars: &project_vars,
    };
    let out = render_shadow_verbose(&layers);
    assert!(
        out.contains(r"echo a \| rg b"),
        "pipe in expansion must be escaped: {out}"
    );
}

#[test]
fn context_invalid_section_empty_when_no_diagnostics() {
    let out = render_invalid(&[]);
    assert!(out.is_empty(), "no diagnostics means no section: {out}");
}

#[test]
fn context_invalid_section_renders_diagnostic_messages() {
    let diags = vec![Diagnostic {
        message: "alias `cc` in profile:compile_help references undefined vars: opt-flags"
            .into(),
    }];
    let out = render_invalid(&diags);
    assert!(out.contains("## Invalid"), "section header: {out}");
    assert!(
        out.contains("alias `cc` in profile:compile_help"),
        "message text: {out}"
    );
    assert!(
        out.contains("undefined vars: opt-flags"),
        "message text: {out}"
    );
}

#[test]
fn context_invalid_section_emits_one_bullet_per_diagnostic() {
    let diags = vec![
        Diagnostic {
            message: "first message".into(),
        },
        Diagnostic {
            message: "second message".into(),
        },
    ];
    let out = render_invalid(&diags);
    // Count bullet lines (lines starting with "- ")
    let bullets = out.lines().filter(|l| l.starts_with("- ")).count();
    assert_eq!(bullets, 2, "expected 2 bullets, got: {out}");
    assert!(out.contains("- first message"));
    assert!(out.contains("- second message"));
}

#[test]
fn context_render_assembles_all_sections_in_order_for_brief() {
    let global = aset(&[("ll", "ls -lha")]);
    let project = aset(&[("f", "cargo fmt")]);
    let global_subs = SubcommandSet::new();
    let global_vars = VarSet::default();
    let project_subs = SubcommandSet::new();
    let project_vars = VarSet::default();
    let layers = LayerInputs {
        global_aliases: &global,
        global_subcommands: &global_subs,
        global_vars: &global_vars,
        profile_layers: &[],
        project_aliases: &project,
        project_subcommands: &project_subs,
        project_vars: &project_vars,
    };
    let chain = PrecedenceChain {
        layers: vec![
            ChainLayer {
                scope: OriginScope::Project,
                priority: None,
            },
            ChainLayer {
                scope: OriginScope::Global,
                priority: None,
            },
        ],
    };

    let effective = vec![
        EffectiveEntry {
            name: "f".into(),
            kind: EntryKind::Alias(TomlAlias::Command("cargo fmt".into())),
            hash: "x".into(),
        },
        EffectiveEntry {
            name: "ll".into(),
            kind: EntryKind::Alias(TomlAlias::Command("ls -lha".into())),
            hash: "y".into(),
        },
    ];
    let outcome = ResolveOutcome {
        diff: PrecedenceDiff {
            added: effective,
            ..Default::default()
        },
        diagnostics: vec![],
    };

    let out = render(
        &"/tmp/x",
        &chain,
        &outcome,
        &layers,
        None,
        RenderOptions { verbose: false },
    );

    // Section presence
    assert!(out.contains("# amoxide aliases"), "preamble present: {out}");
    assert!(out.contains("## Aliases"), "aliases header present: {out}");
    // No variables section (none defined); note the preamble comment references
    // "## Variables" so we check for the standalone section header line.
    assert!(
        !out.contains("\n## Variables\n"),
        "no vars means no section: {out}"
    );
    // No shadowed section (no shadows)
    assert!(!out.contains("## Shadowed"), "no shadows: {out}");
    // No invalid section (brief mode)
    assert!(!out.contains("## Invalid"), "brief omits invalid: {out}");

    // Section order
    let preamble_idx = out.find("# amoxide aliases").unwrap();
    let aliases_idx = out.find("## Aliases").unwrap();
    assert!(preamble_idx < aliases_idx, "preamble before aliases");
}

#[test]
fn context_render_includes_invalid_only_in_verbose_mode() {
    let global = AliasSet::default();
    let global_subs = SubcommandSet::new();
    let global_vars = VarSet::default();
    let project_aliases = AliasSet::default();
    let project_subs = SubcommandSet::new();
    let project_vars = VarSet::default();
    let layers = LayerInputs {
        global_aliases: &global,
        global_subcommands: &global_subs,
        global_vars: &global_vars,
        profile_layers: &[],
        project_aliases: &project_aliases,
        project_subcommands: &project_subs,
        project_vars: &project_vars,
    };
    let chain = PrecedenceChain {
        layers: vec![ChainLayer {
            scope: OriginScope::Global,
            priority: None,
        }],
    };
    let outcome = ResolveOutcome {
        diff: PrecedenceDiff::default(),
        diagnostics: vec![Diagnostic {
            message: "alias `cc` missing vars: x".into(),
        }],
    };

    let brief = render(
        &"/x",
        &chain,
        &outcome,
        &layers,
        None,
        RenderOptions { verbose: false },
    );
    let verbose = render(
        &"/x",
        &chain,
        &outcome,
        &layers,
        None,
        RenderOptions { verbose: true },
    );
    assert!(
        !brief.contains("## Invalid"),
        "brief hides invalid: {brief}"
    );
    assert!(
        verbose.contains("## Invalid"),
        "verbose shows invalid: {verbose}"
    );
    assert!(verbose.contains("alias `cc` missing vars: x"));
}

#[test]
fn context_no_notice_when_none() {
    let out = render_project_trust_notice(None, &[]);
    assert!(out.is_empty(), "expected empty: {out}");
}

#[test]
fn trust_notice_no_notice_when_none() {
    let out = render_project_trust_notice(None, &[]);
    assert!(out.is_empty(), "expected empty: {out}");
}

#[test]
fn context_notice_names_path_reason_session_start_ask_and_alias_list() {
    let notice = ProjectTrustNotice {
        path: "/x/.aliases".into(),
        reason: ProjectTrustReason::Untrusted,
    };
    let out = render_project_trust_notice(Some(&notice), &["i", "t", "git cm"]);
    assert!(out.contains("## Project aliases (not loaded)"), "header: {out}");
    assert!(out.contains("> [!WARNING]"), "leads with a markdown-native warning admonition: {out}");
    assert!(out.contains("Your view of aliases here is incomplete"), "warning body names the failure mode: {out}");
    assert!(out.contains("/x/.aliases"), "path: {out}");
    assert!(out.contains("previously untrusted"), "reason label: {out}");
    assert!(out.contains("At session start, ask the user once"), "asks once at session start (not action-gated): {out}");
    assert!(out.contains("already declined trust in this session"), "respects a prior decline inline with the ask: {out}");
    assert!(out.contains("Run `am trust` in your shell"), "natural prompt hands off to user terminal: {out}");
    assert!(
        out.contains("`i`") && out.contains("`t`") && out.contains("`git cm`"),
        "every passed alias name appears verbatim: {out}"
    );
    assert!(out.contains("**Hand-off rules**"), "groups the don'ts under a labelled bullet block: {out}");
    assert!(out.contains("Don't read `.aliases` yourself"), "forbids reading the file ourselves: {out}");
    assert!(out.contains("Don't run `am trust` in a subshell"), "forbids subshell execution: {out}");
}

#[test]
fn trust_notice_notice_names_path_reason_session_start_ask_and_alias_list() {
    let notice = ProjectTrustNotice {
        path: "/x/.aliases".into(),
        reason: ProjectTrustReason::Untrusted,
    };
    let out = render_project_trust_notice(Some(&notice), &["i", "t", "git cm"]);
    assert!(out.contains("## Project aliases (not loaded)"), "header: {out}");
    assert!(out.contains("> [!WARNING]"), "leads with a markdown-native warning admonition: {out}");
    assert!(out.contains("Your view of aliases here is incomplete"), "warning body names the failure mode: {out}");
    assert!(out.contains("/x/.aliases"), "path: {out}");
    assert!(out.contains("previously untrusted"), "reason label: {out}");
    assert!(out.contains("At session start, ask the user once"), "asks once at session start (not action-gated): {out}");
    assert!(out.contains("already declined trust in this session"), "respects a prior decline inline with the ask: {out}");
    assert!(out.contains("Run `am trust` in your shell"), "natural prompt hands off to user terminal: {out}");
    assert!(
        out.contains("`i`") && out.contains("`t`") && out.contains("`git cm`"),
        "every passed alias name appears verbatim: {out}"
    );
    assert!(out.contains("**Hand-off rules**"), "groups the don'ts under a labelled bullet block: {out}");
    assert!(out.contains("Don't read `.aliases` yourself"), "forbids reading the file ourselves: {out}");
    assert!(out.contains("Don't run `am trust` in a subshell"), "forbids subshell execution: {out}");
}

#[test]
fn context_notice_handles_empty_alias_list_gracefully() {
    let notice = ProjectTrustNotice {
        path: "/x/.aliases".into(),
        reason: ProjectTrustReason::Unknown,
    };
    let out = render_project_trust_notice(Some(&notice), &[]);
    assert!(out.contains("the table is currently empty"), "fallback phrasing when no aliases in scope: {out}");
}

#[test]
fn trust_notice_notice_handles_empty_alias_list_gracefully() {
    let notice = ProjectTrustNotice {
        path: "/x/.aliases".into(),
        reason: ProjectTrustReason::Unknown,
    };
    let out = render_project_trust_notice(Some(&notice), &[]);
    assert!(out.contains("the table is currently empty"), "fallback phrasing when no aliases in scope: {out}");
}

#[test]
fn context_notice_reason_labels_per_trust_state() {
    for (reason, label) in [
        (ProjectTrustReason::Unknown, "not yet reviewed"),
        (ProjectTrustReason::Untrusted, "previously untrusted"),
        (ProjectTrustReason::Tampered, "modified since last trusted"),
    ] {
        let notice = ProjectTrustNotice {
            path: "/p/.aliases".into(),
            reason,
        };
        let out = render_project_trust_notice(Some(&notice), &[]);
        assert!(out.contains(label), "label '{label}' missing for {reason:?}: {out}");
    }
}

#[test]
fn trust_notice_notice_reason_labels_per_trust_state() {
    for (reason, label) in [
        (ProjectTrustReason::Unknown, "not yet reviewed"),
        (ProjectTrustReason::Untrusted, "previously untrusted"),
        (ProjectTrustReason::Tampered, "modified since last trusted"),
    ] {
        let notice = ProjectTrustNotice {
            path: "/p/.aliases".into(),
            reason,
        };
        let out = render_project_trust_notice(Some(&notice), &[]);
        assert!(out.contains(label), "label '{label}' missing for {reason:?}: {out}");
    }
}

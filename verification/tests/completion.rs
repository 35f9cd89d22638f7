use amoxide::completion::{
    alias_names_with_ctx, colon_context_from_comp_line, colon_split_in_prefix,
    sorted_unique, sub_segments_with_ctx, var_names_with_ctx, CompletionCtx, CompletionSources,
};
use amoxide::profile::{Profile, ProfileConfig};
use amoxide::vars::{VarName, VarSet};
use amoxide::{Config, ProjectAliases};

fn ctx(args: &[&str]) -> CompletionCtx {
    let args: Vec<String> = args.iter().map(|s| s.to_string()).collect();
    CompletionCtx::from_args(&args)
}

fn ctx_with_line(line: &str) -> CompletionCtx {
    CompletionCtx { comp_line_prefix: Some(line.to_string()), ..CompletionCtx::default() }
}

fn sources() -> CompletionSources {
    let mut config = Config::default();
    config.add_alias("gs".into(), "git status".into(), false);
    config.add_subcommand("git:cm".into(), vec!["commit".into()]);
    config.add_subcommand("jj:b:l".into(), vec!["bookmark".into(), "list".into()]);
    config.add_subcommand("jj:b:c".into(), vec!["bookmark".into(), "create".into()]);
    let mut rust = Profile::new("rust".into());
    rust.aliases.insert("ct".into(), amoxide::TomlAlias::Command("cargo test".into()));
    rust.subcommands.insert(
        "cargo:t".into(),
        amoxide::subcommand::TomlSubcommand::Expansion(vec!["test".into()]),
    );
    let mut project = ProjectAliases::default();
    project.add_alias("b".into(), "make build".into(), false);
    let mut global_vars = VarSet::default();
    global_vars.insert(VarName::parse("editor").unwrap(), "vim".into());
    CompletionSources {
        config,
        global_vars,
        project: Some(project),
        profiles: ProfileConfig { profiles: vec![rust] },
        active_profiles: vec!["rust".into()],
    }
}

#[test]
fn ctx_picks_up_local_global() {
    assert!(ctx(&["am", "remove", "-l"]).local);
    assert!(ctx(&["am", "remove", "--local"]).local);
    assert!(ctx(&["am", "remove", "-g"]).global);
    assert!(ctx(&["am", "remove", "--global"]).global);
}

#[test]
fn ctx_picks_up_profile_spaced_and_equals() {
    assert_eq!(ctx(&["am", "remove", "-p", "rust"]).profiles, vec!["rust"]);
    assert_eq!(ctx(&["am", "remove", "--profile", "rust"]).profiles, vec!["rust"]);
    assert_eq!(ctx(&["am", "remove", "--profile=rust"]).profiles, vec!["rust"]);
}

#[test]
fn ctx_picks_up_multiple_subs() {
    let c = ctx(&["am", "remove", "jj", "--sub", "b", "--sub", "l"]);
    assert_eq!(c.subs, vec!["b", "l"]);
}

#[test]
fn ctx_collects_positionals_excluding_flag_values() {
    let c = ctx(&["am", "remove", "-p", "rust", "jj"]);
    assert_eq!(c.positionals, vec!["am", "remove", "jj"]);
}

#[test]
fn ctx_handles_combined_scope_and_subs() {
    let c = ctx(&["am", "remove", "-p", "rust", "jj", "--sub", "b", "--sub", "l"]);
    assert_eq!(c.profiles, vec!["rust"]);
    assert_eq!(c.subs, vec!["b", "l"]);
    assert_eq!(c.positionals, vec!["am", "remove", "jj"]);
}

#[test]
fn colon_context_extracts_strip_and_partial_from_comp_line() {
    assert_eq!(
        colon_context_from_comp_line(&ctx_with_line("am r -p git git:")),
        Some(("git:".into(), "".into()))
    );
    assert_eq!(
        colon_context_from_comp_line(&ctx_with_line("am r -p git git:p")),
        Some(("git:".into(), "p".into()))
    );
    assert_eq!(
        colon_context_from_comp_line(&ctx_with_line("am r jj:b:")),
        Some(("jj:b:".into(), "".into()))
    );
    assert_eq!(
        colon_context_from_comp_line(&ctx_with_line("am r jj:b:l")),
        Some(("jj:b:".into(), "l".into()))
    );
}

#[test]
fn colon_context_returns_none_without_comp_line_or_colon() {
    assert_eq!(colon_context_from_comp_line(&CompletionCtx::default()), None);
    assert_eq!(colon_context_from_comp_line(&ctx_with_line("am r git")), None);
}

#[test]
fn colon_context_rejects_leading_colon() {
    assert_eq!(colon_context_from_comp_line(&ctx_with_line("am r :foo")), None);
}

#[test]
fn ctx_trailing_flag_without_value_and_empty_value() {
    let c = ctx(&["am", "remove", "-p"]);
    assert!(c.profiles.is_empty());
    let c = ctx(&["am", "remove", "--sub", ""]);
    assert!(c.subs.is_empty());
    let c = ctx(&["am", "--bogus", "x"]);
    assert_eq!(c.positionals, vec!["am", "x"]);
}

#[test]
fn colon_split_cases() {
    assert_eq!(colon_split_in_prefix("git:p"), Some(("git:".into(), "p".into())));
    assert_eq!(colon_split_in_prefix("git"), None);
    assert_eq!(colon_split_in_prefix(":x"), None);
    assert_eq!(colon_context_from_comp_line(&ctx_with_line("am r\tgit:c")), Some(("git:".into(), "c".into())));
}

#[test]
fn matches_empty_prefix_and_prefix() {
    assert!(amoxide::completion::matches("anything", ""));
    assert!(amoxide::completion::matches("gs", "g"));
    assert!(!amoxide::completion::matches("gs", "x"));
}

#[test]
fn sorted_unique_sorts_and_dedups() {
    let v: Vec<String> = vec!["b".into(), "a".into(), "b".into(), "c".into()];
    assert_eq!(sorted_unique(&v), vec!["a", "b", "c"]);
}

#[test]
fn alias_names_union_without_scope() {
    let src = sources();
    let names = alias_names_with_ctx("", &CompletionCtx::default(), &src);
    assert_eq!(
        names,
        vec!["b", "cargo:t", "ct", "git:cm", "gs", "jj:b:c", "jj:b:l"]
    );
    let names = alias_names_with_ctx("g", &CompletionCtx::default(), &src);
    assert_eq!(names, vec!["git:cm", "gs"]);
}

#[test]
fn alias_names_scoped() {
    let src = sources();
    assert_eq!(alias_names_with_ctx("", &ctx(&["am", "r", "-g"]), &src), vec!["git:cm", "gs", "jj:b:c", "jj:b:l"]);
    assert_eq!(alias_names_with_ctx("", &ctx(&["am", "r", "-l"]), &src), vec!["b"]);
    assert_eq!(alias_names_with_ctx("", &ctx(&["am", "r", "-p", "rust"]), &src), vec!["cargo:t", "ct"]);
}

#[test]
fn alias_names_colon_shorthand_from_comp_line() {
    let src = sources();
    let c = CompletionCtx { global: true, ..ctx_with_line("am r jj:b:") };
    assert_eq!(alias_names_with_ctx("", &c, &src), vec!["c", "l"]);
    let c = CompletionCtx { global: true, ..ctx_with_line("am r jj:b:l") };
    assert_eq!(alias_names_with_ctx("l", &c, &src), vec!["l"]);
}

#[test]
fn var_names_global() {
    let src = sources();
    assert_eq!(var_names_with_ctx("e", &ctx(&["am", "-g"]), &src), vec!["editor"]);
    assert!(var_names_with_ctx("x", &ctx(&["am", "-g"]), &src).is_empty());
}

#[test]
fn sub_segments_next_level() {
    let src = sources();
    let c = ctx(&["am", "remove", "jj", "--sub", "b", "--sub", ""]);
    assert_eq!(sub_segments_with_ctx("", &c, &src), vec!["c", "l"]);
    let c = ctx(&["am", "remove", "jj:", "--sub", ""]);
    assert_eq!(sub_segments_with_ctx("", &c, &src), vec!["b"]);
    assert!(sub_segments_with_ctx("", &CompletionCtx::default(), &src).is_empty());
}

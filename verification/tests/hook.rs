use amoxide::env_vars;
use amoxide::hook::emit::{generate_hook_with_security, ProjectScan};
use amoxide::hook::{alias_content_hash, compute_short_hash, parse_prev_aliases};
use amoxide::project::TrustStatus;
use amoxide::shell::Shell;
use amoxide::{ProjectAliases, TomlAlias};

/// Extract the `_AM_PROJECT_ALIASES` value from generated shell code.
fn extract_prev_aliases(output: &str, shell: &Shell) -> Option<String> {
    let prefix = match shell {
        Shell::Fish => "set -gx _AM_PROJECT_ALIASES \"",
        _ => "export _AM_PROJECT_ALIASES=\"",
    };
    output
        .lines()
        .find(|l| l.contains("_AM_PROJECT_ALIASES"))
        .and_then(|l| {
            let start = l.find(prefix).map(|i| i + prefix.len())?;
            let end = l[start..].find('"').map(|i| start + i)?;
            Some(l[start..end].to_string())
        })
}

fn project(aliases: &[(&str, &str)], subs: &[(&str, &[&str])]) -> ProjectAliases {
    let mut p = ProjectAliases::default();
    for (n, c) in aliases {
        p.add_alias((*n).to_string(), (*c).to_string(), false);
    }
    for (k, longs) in subs {
        p.add_subcommand((*k).to_string(), longs.iter().map(|s| s.to_string()).collect());
    }
    p
}

fn scan(status: TrustStatus, is_direct: bool, p: ProjectAliases) -> ProjectScan {
    ProjectScan { path: "/work/proj/.aliases".to_string(), is_direct, status, project: p }
}

fn run(shell: &Shell, found: Option<&ProjectScan>, prev: Option<&str>) -> (String, bool) {
    generate_hook_with_security(*shell, prev, None, found, false)
}

const B_T: &[(&str, &str)] = &[("b", "make build"), ("t", "make test")];
const B: &[(&str, &str)] = &[("b", "make build")];

// ─── Basic hook behavior ────────────────────────────────────────

#[test]
fn test_hook_with_aliases_file() {
    let s = scan(TrustStatus::Trusted, true, project(B_T, &[]));
    let (output, _) = run(&Shell::Fish, Some(&s), None);
    assert!(output.contains("alias b \"make build\""));
    assert!(output.contains("alias t \"make test\""));
    assert!(output.contains(env_vars::AM_PROJECT_ALIASES));
}

#[test]
fn test_hook_unloads_previous_aliases() {
    let (output, _) = run(&Shell::Fish, None, Some("old1,old2"));
    assert!(output.contains("functions -e old1"));
    assert!(output.contains("functions -e old2"));
    assert!(output.contains("set -e _AM_PROJECT_ALIASES"));
}

#[test]
fn test_hook_no_aliases_no_previous() {
    let (output, _) = run(&Shell::Fish, None, None);
    assert!(output.is_empty());
}

#[test]
fn test_hook_transitions_between_projects() {
    let s = scan(TrustStatus::Trusted, true, project(&[("new1", "echo new")], &[]));
    let (output, _) = run(&Shell::Fish, Some(&s), Some("old1,old2"));
    assert!(output.contains("functions -e old1"));
    assert!(output.contains("functions -e old2"));
    assert!(output.contains("alias new1 \"echo new\""));
    let new1_hash = compute_short_hash(b"echo new");
    assert!(
        output.contains(&format!("\"new1|{new1_hash}\"")),
        "expected new1|hash in env var, got: {output}"
    );
}

#[test]
fn test_hook_zsh_output() {
    let s = scan(TrustStatus::Trusted, true, project(B, &[]));
    let (output, _) = run(&Shell::Zsh, Some(&s), Some("old"));
    assert!(output.contains("unset -f old"));
    assert!(output.contains("alias b=\"make build\""));
    assert!(output.contains("export _AM_PROJECT_ALIASES="));
}

#[test]
fn test_hook_picks_up_added_alias() {
    let s = scan(TrustStatus::Trusted, true, project(B, &[]));
    let (output, _) = run(&Shell::Fish, Some(&s), None);
    assert!(output.contains("alias b \"make build\""));
    assert!(!output.contains("alias t"));

    let prev = extract_prev_aliases(&output, &Shell::Fish);

    let s = scan(TrustStatus::Trusted, true, project(B_T, &[]));
    let (output, _) = run(&Shell::Fish, Some(&s), prev.as_deref());
    assert!(
        !output.contains("functions -e b"),
        "unchanged alias b should not be unloaded, got: {output}"
    );
    assert!(
        !output.contains("alias b \"make build\""),
        "unchanged alias b should not be reloaded, got: {output}"
    );
    assert!(output.contains("alias t \"make test\""));
    let b_hash = compute_short_hash(b"make build");
    let t_hash = compute_short_hash(b"make test");
    assert!(
        output.contains(&format!("b|{b_hash},t|{t_hash}")),
        "expected b|hash,t|hash in env var, got: {output}"
    );
}

#[test]
fn test_hook_picks_up_removed_alias() {
    let s = scan(TrustStatus::Trusted, true, project(B_T, &[]));
    let (output, _) = run(&Shell::Fish, Some(&s), None);
    assert!(output.contains("alias b"));
    assert!(output.contains("alias t"));

    let prev = extract_prev_aliases(&output, &Shell::Fish);

    let s = scan(TrustStatus::Trusted, true, project(B, &[]));
    let (output, _) = run(&Shell::Fish, Some(&s), prev.as_deref());
    assert!(
        !output.contains("functions -e b"),
        "unchanged alias b should not be unloaded, got: {output}"
    );
    assert!(
        !output.contains("alias b \"make build\""),
        "unchanged alias b should not be reloaded, got: {output}"
    );
    assert!(
        output.contains("functions -e t"),
        "removed alias t should be unloaded, got: {output}"
    );
    assert!(!output.contains("alias t \"make test\""));
    let b_hash = compute_short_hash(b"make build");
    assert!(
        output.contains(&format!("\"b|{b_hash}\"")),
        "expected b|hash in env var, got: {output}"
    );
}

#[test]
fn test_hook_bash_output() {
    let s = scan(TrustStatus::Trusted, true, project(B, &[]));
    let (output, _) = run(&Shell::Bash, Some(&s), Some("old"));
    assert!(output.contains("unset -f old"));
    assert!(output.contains("alias b=\"make build\""));
    assert!(output.contains("export _AM_PROJECT_ALIASES="));
}

#[test]
fn test_hook_loads_aliases_from_parent_directory() {
    let s = scan(TrustStatus::Trusted, false, project(B_T, &[]));
    let (output, _) = run(&Shell::Fish, Some(&s), None);
    assert!(
        output.contains("alias b \"make build\""),
        "should load aliases from parent .aliases, got: {output}"
    );
    assert!(output.contains("alias t \"make test\""));
    assert!(output.contains(env_vars::AM_PROJECT_ALIASES));
}

// ─── Trust-gated hook tests ─────────────────────────────────────

#[test]
fn test_hook_trusted_shows_load_message() {
    let s = scan(TrustStatus::Trusted, true, project(B, &[]));
    let (output, changed) = run(&Shell::Fish, Some(&s), None);
    assert!(!changed);
    assert!(output.contains("alias b \"make build\""));
    assert!(output.contains("am: loaded .aliases"));
}

#[test]
fn test_hook_unknown_shows_warning() {
    let s = scan(TrustStatus::Unknown, true, ProjectAliases::default());
    let (output, changed) = run(&Shell::Fish, Some(&s), None);
    assert!(!changed);
    assert!(!output.contains("alias b"));
    assert!(output.contains("am: .aliases found but not trusted"));
    assert!(output.contains("am trust"));
}

#[test]
fn test_hook_untrusted_silent() {
    let s = scan(TrustStatus::Untrusted, true, ProjectAliases::default());
    let (output, changed) = run(&Shell::Fish, Some(&s), None);
    assert!(!changed);
    assert!(!output.contains("alias b"));
    assert!(!output.contains("am:"));
}

#[test]
fn test_hook_tampered_shows_loud_warning() {
    let s = scan(TrustStatus::Tampered, true, ProjectAliases::default());
    let (output, changed) = run(&Shell::Fish, Some(&s), None);
    assert!(changed);
    assert!(!output.contains("alias b"));
    assert!(output.contains("modified since last trusted"));
}

#[test]
fn test_hook_unload_shows_message() {
    let (output, _) = run(&Shell::Fish, None, Some("old1,old2"));
    assert!(output.contains("functions -e old1"));
    assert!(output.contains("functions -e old2"));
    assert!(output.contains("am: unloaded .aliases"));
}

// ─── Subdirectory behavior ──────────────────────────────────────

#[test]
fn test_hook_subdirectory_no_warning_for_parent_aliases() {
    let s = scan(TrustStatus::Unknown, false, ProjectAliases::default());
    let (output, _) = run(&Shell::Fish, Some(&s), None);
    assert!(
        !output.contains("am:"),
        "should not show warning for parent .aliases, got: {output}"
    );
}

#[test]
fn test_hook_subdirectory_trusted_loads_silently() {
    let s = scan(TrustStatus::Trusted, false, project(B, &[]));
    let (output, _) = run(&Shell::Fish, Some(&s), None);
    assert!(output.contains("alias b \"make build\""));
    assert!(
        !output.contains("am: loaded"),
        "should not show load message for parent .aliases, got: {output}"
    );
}

#[test]
fn test_hook_picks_up_new_subcommand_added_to_existing_program() {
    let s = scan(TrustStatus::Trusted, true, project(&[], &[("c:l", &["clippy"])]));
    let (output, _) = run(&Shell::Fish, Some(&s), None);
    assert!(output.contains("function c"), "first run should emit c wrapper");
    assert!(output.contains("clippy"));

    let prev = extract_prev_aliases(&output, &Shell::Fish);

    let s = scan(
        TrustStatus::Trusted,
        true,
        project(&[], &[("c:l", &["clippy"]), ("c:t", &["test"])]),
    );
    let (output, _) = run(&Shell::Fish, Some(&s), prev.as_deref());
    assert!(
        output.contains("function c"),
        "hook must re-emit c wrapper after new subcommand added, got: {output}"
    );
    assert!(output.contains("test"), "updated wrapper must include c:t");
    assert!(output.contains("clippy"), "updated wrapper must still include c:l");
}

#[test]
fn test_hook_with_project_subcommands() {
    let s = scan(TrustStatus::Trusted, true, project(B, &[("jj:ab", &["abandon"])]));
    let (output, _) = run(&Shell::Bash, Some(&s), None);
    assert!(output.contains("alias b=\"make build\""));
    assert!(output.contains("jj() {"));
    assert!(output.contains("ab) shift; command jj abandon"));
}

// ─── Per-alias content hashing ─────────────────────────────────

#[test]
fn test_parse_prev_aliases_new_format() {
    let map = parse_prev_aliases(Some("b|abc1234,t|def5678"));
    assert_eq!(map.len(), 2);
    assert_eq!(map.get("b").unwrap().0, Some("abc1234".to_string()));
    assert_eq!(map.get("t").unwrap().0, Some("def5678".to_string()));
}

#[test]
fn test_parse_prev_aliases_old_format_backward_compat() {
    let map = parse_prev_aliases(Some("b,t"));
    assert_eq!(map.len(), 2);
    assert_eq!(map.get("b").unwrap().0, None);
    assert_eq!(map.get("t").unwrap().0, None);
}

#[test]
fn test_parse_prev_aliases_empty() {
    assert!(parse_prev_aliases(None).is_empty());
    assert!(parse_prev_aliases(Some("")).is_empty());
}

#[test]
fn test_parse_prev_aliases_mixed_format() {
    let map = parse_prev_aliases(Some("b|abc1234,t,gs|fed9876"));
    assert_eq!(map.len(), 3);
    assert_eq!(map.get("b").unwrap().0, Some("abc1234".to_string()));
    assert_eq!(map.get("t").unwrap().0, None);
    assert_eq!(map.get("gs").unwrap().0, Some("fed9876".to_string()));
}

#[test]
fn test_alias_content_hash_deterministic() {
    let alias = TomlAlias::Command("make build".to_string());
    let h1 = alias_content_hash(&alias);
    let h2 = alias_content_hash(&alias);
    assert_eq!(h1, h2);
    assert_eq!(h1.len(), 7);
}

#[test]
fn test_alias_content_hash_different_commands() {
    let a = TomlAlias::Command("make build".to_string());
    let b = TomlAlias::Command("cargo build".to_string());
    assert_ne!(alias_content_hash(&a), alias_content_hash(&b));
}

#[test]
fn test_hook_reloads_when_alias_value_changes() {
    let s = scan(TrustStatus::Trusted, true, project(B, &[]));
    let (output, _) = run(&Shell::Fish, Some(&s), None);
    assert!(output.contains("alias b \"make build\""));

    let prev = extract_prev_aliases(&output, &Shell::Fish);

    let s = scan(TrustStatus::Trusted, true, project(&[("b", "cargo build")], &[]));
    let (output, _) = run(&Shell::Fish, Some(&s), prev.as_deref());
    assert!(
        output.contains("alias b \"cargo build\""),
        "hook must reload when alias value changes, got: {output}"
    );
    assert!(
        output.contains("functions -e b"),
        "changed alias should be unloaded before reload, got: {output}"
    );
}

#[test]
fn test_hook_skips_unchanged_aliases() {
    let s = scan(TrustStatus::Trusted, true, project(B_T, &[]));
    let (output, _) = run(&Shell::Fish, Some(&s), None);

    let prev = extract_prev_aliases(&output, &Shell::Fish);

    let (output, _) = run(&Shell::Fish, Some(&s), prev.as_deref());
    assert!(output.is_empty(), "unchanged aliases should produce no output, got: {output}");
}

#[test]
fn test_hook_incremental_message_on_change() {
    let s = scan(TrustStatus::Trusted, true, project(B_T, &[]));
    let (output, _) = run(&Shell::Fish, Some(&s), None);
    assert!(output.contains("am: loaded .aliases"));

    let prev = extract_prev_aliases(&output, &Shell::Fish);

    let s = scan(
        TrustStatus::Trusted,
        true,
        project(&[("b", "make build"), ("t", "make test --all"), ("x", "exit")], &[]),
    );
    let (output, _) = run(&Shell::Fish, Some(&s), prev.as_deref());
    assert!(
        output.contains("am: .aliases changed"),
        "should show incremental change message, got: {output}"
    );
    assert!(
        !output.contains("am: loaded .aliases"),
        "should not show full load message on incremental change, got: {output}"
    );
}

#[test]
fn test_hook_backward_compat_old_format_triggers_full_reload() {
    let s = scan(TrustStatus::Trusted, true, project(B, &[]));
    let (output, _) = run(&Shell::Fish, Some(&s), Some("b"));
    assert!(
        output.contains("alias b \"make build\""),
        "backward compat: old format should trigger reload, got: {output}"
    );
}

#[test]
fn test_extract_prev_aliases_fish() {
    let output = "set -gx _AM_PROJECT_ALIASES \"b|abc1234,t|def5678\"";
    let prev = extract_prev_aliases(output, &Shell::Fish);
    assert_eq!(prev, Some("b|abc1234,t|def5678".to_string()));
}

#[test]
fn test_extract_prev_aliases_bash() {
    let output = "export _AM_PROJECT_ALIASES=\"b|abc1234,t|def5678\"";
    let prev = extract_prev_aliases(output, &Shell::Bash);
    assert_eq!(prev, Some("b|abc1234,t|def5678".to_string()));
}

// ─── Exact output ───────────────────────────────────────────────

#[test]
fn hook_fresh_load_exact_fish() {
    let s = scan(TrustStatus::Trusted, true, project(B, &[]));
    let (output, changed) = run(&Shell::Fish, Some(&s), None);
    let h = compute_short_hash(b"make build");
    assert!(!changed);
    assert_eq!(
        output,
        format!(
            "echo \"am: loaded .aliases\"\necho \"  b = make build\"\nalias b \"make build\"\nset -gx _AM_PROJECT_ALIASES \"b|{h}\""
        )
    );
}

#[test]
fn hook_change_summary_counts() {
    let s = scan(TrustStatus::Trusted, true, project(B_T, &[]));
    let (output, _) = run(&Shell::Fish, Some(&s), None);
    let prev = extract_prev_aliases(&output, &Shell::Fish);
    let s = scan(
        TrustStatus::Trusted,
        true,
        project(&[("b", "make build"), ("t", "make test --all"), ("x", "exit")], &[]),
    );
    let (output, _) = run(&Shell::Fish, Some(&s), prev.as_deref());
    assert!(output.contains("echo \"am: .aliases changed (1 added, 1 updated)\""), "got: {output}");
}

#[test]
fn hook_leaving_project_clears_path_and_names_aliases() {
    let (output, _) =
        generate_hook_with_security(Shell::Fish, Some("b|abc1234,c:l|def5678"), Some("/p/.aliases"), None, false);
    assert_eq!(
        output,
        "functions -e b\necho \"am: unloaded .aliases (b)\"\nset -e _AM_PROJECT_ALIASES\nset -e _AM_PROJECT_PATH"
    );
}

#[test]
fn hook_quiet_suppresses_messages() {
    let s = scan(TrustStatus::Unknown, true, ProjectAliases::default());
    let (output, _) = generate_hook_with_security(Shell::Bash, None, None, Some(&s), true);
    assert_eq!(output, "export _AM_PROJECT_PATH=\"/work/proj/.aliases\"");
}

#[test]
fn hook_same_path_reported_once() {
    let s = scan(TrustStatus::Tampered, true, ProjectAliases::default());
    let (output, changed) =
        generate_hook_with_security(Shell::Fish, None, Some("/work/proj/.aliases"), Some(&s), false);
    assert!(changed);
    assert!(!output.contains("modified since last trusted"));
}

#[test]
fn short_hash_is_fnv1a_hex() {
    // FNV-1a 32 of "a" is 0xE40C292C; seven hex digits keep the low 28 bits.
    assert_eq!(compute_short_hash(b"a"), "40C292C");
    assert_eq!(compute_short_hash(b""), "11C9DC5");
}

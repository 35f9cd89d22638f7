use amoxide::project::{trust_status, TrustStatus};
use amoxide::session::{use_profiles, UseMode};

fn v(x: &[&str]) -> Vec<String> {
    x.iter().map(|s| s.to_string()).collect()
}

#[test]
fn toggle_activates_and_deactivates() {
    let a = use_profiles(&v(&["git"]), &v(&["rust"]), UseMode::Toggle, None, false);
    assert_eq!(a, v(&["git", "rust"]));
    let b = use_profiles(&a, &v(&["rust"]), UseMode::Toggle, None, false);
    assert_eq!(b, v(&["git"]));
}

#[test]
fn enable_disable_and_priority() {
    let a = use_profiles(&v(&["git", "rust"]), &v(&["rust"]), UseMode::Enable, None, false);
    assert_eq!(a, v(&["git", "rust"]));
    let b = use_profiles(&a, &v(&["rust"]), UseMode::Enable, Some(1), false);
    assert_eq!(b, v(&["rust", "git"]));
    let c = use_profiles(&b, &v(&["node"]), UseMode::Toggle, Some(9), false);
    assert_eq!(c, v(&["rust", "git", "node"]));
    let d = use_profiles(&c, &v(&["git", "node"]), UseMode::Disable, None, false);
    assert_eq!(d, v(&["rust"]));
}

#[test]
fn inverse_processes_names_backwards() {
    let a = use_profiles(&v(&[]), &v(&["a", "b"]), UseMode::Enable, None, true);
    assert_eq!(a, v(&["b", "a"]));
    let b = use_profiles(&v(&[]), &v(&["a", "b"]), UseMode::Enable, Some(1), false);
    assert_eq!(b, v(&["b", "a"]));
}

#[test]
fn trust_status_from_record() {
    assert_eq!(trust_status(Some("abc"), false, "abc"), TrustStatus::Trusted);
    assert_eq!(trust_status(Some("abc"), false, "def"), TrustStatus::Tampered);
    assert_eq!(trust_status(None, true, "def"), TrustStatus::Untrusted);
    assert_eq!(trust_status(None, false, "def"), TrustStatus::Unknown);
}

use amoxide::described::DescriptionUpdate;
use amoxide::described::normalize_description;


#[test]
fn normalize_empty_string_returns_none() {
    assert_eq!(normalize_description(""), None);
}


#[test]
fn normalize_whitespace_only_returns_none() {
    assert_eq!(normalize_description("   "), None);
    assert_eq!(normalize_description("\t"), None);
    assert_eq!(normalize_description("\n  "), None);
}


#[test]
fn normalize_trims_and_returns_some() {
    assert_eq!(normalize_description("  hi  "), Some("hi".to_string()));
}


#[test]
fn normalize_keeps_internal_spaces() {
    assert_eq!(
        normalize_description("  a b c  "),
        Some("a b c".to_string())
    );
}

#[test]
fn cli_arg_absent_preserves() {
    assert_eq!(DescriptionUpdate::from_cli_arg(None), DescriptionUpdate::Preserve);
}

#[test]
fn cli_arg_blank_clears() {
    assert_eq!(DescriptionUpdate::from_cli_arg(Some("   ")), DescriptionUpdate::Clear);
}

#[test]
fn cli_arg_text_sets_trimmed() {
    assert_eq!(
        DescriptionUpdate::from_cli_arg(Some("  note  ")),
        DescriptionUpdate::SetTo("note".to_string())
    );
}

#[test]
fn resolve_each_variant() {
    assert_eq!(DescriptionUpdate::Preserve.resolve(Some("old")), Some("old".to_string()));
    assert_eq!(DescriptionUpdate::Preserve.resolve(None), None);
    assert_eq!(DescriptionUpdate::Clear.resolve(Some("old")), None);
    assert_eq!(
        DescriptionUpdate::SetTo("new".to_string()).resolve(Some("old")),
        Some("new".to_string())
    );
}

#[test]
fn explicit_edit_sets_or_clears() {
    assert_eq!(
        DescriptionUpdate::from_explicit(Some("x".to_string())),
        DescriptionUpdate::SetTo("x".to_string())
    );
    assert_eq!(DescriptionUpdate::from_explicit(None), DescriptionUpdate::Clear);
}

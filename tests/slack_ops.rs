use chatgate::slack_ops::{project_name_to_slack_slug, slug_from_lowercase};

#[test]
fn slug_simple_name() {
    assert_eq!(project_name_to_slack_slug("Auth Refactor").unwrap(), "prj-auth-refactor");
}

#[test]
fn slug_special_chars() {
    assert_eq!(project_name_to_slack_slug("Q1/2026 -- Infra").unwrap(), "prj-q1-2026-infra");
}

#[test]
fn slug_already_lowercase() {
    assert_eq!(project_name_to_slack_slug("billing").unwrap(), "prj-billing");
}

#[test]
fn slug_truncates_at_80_chars() {
    let long_name = "a".repeat(90);
    let slug = project_name_to_slack_slug(&long_name).unwrap();
    assert!(slug.len() <= 80, "slug must not exceed 80 chars");
}

#[test]
fn slug_empty_string_returns_error() {
    assert!(project_name_to_slack_slug("").is_err());
}

#[test]
fn slug_all_special_chars_returns_error() {
    assert!(project_name_to_slack_slug("!!!???###").is_err());
}

#[test]
fn slug_unicode_chars_become_dashes() {
    let slug = project_name_to_slack_slug("Café München").unwrap();
    assert_eq!(slug, "prj-caf-m-nchen");
}

#[test]
fn slug_from_lowercase_exact() {
    assert_eq!(slug_from_lowercase("--a__b--").unwrap(), "prj-a-b");
    assert_eq!(slug_from_lowercase(&"x".repeat(100)).unwrap(), format!("prj-{}", "x".repeat(76)));
}

#[test]
fn slug_lowercases_kelvin_sign() {
    assert_eq!(project_name_to_slack_slug("\u{212A}ilo").unwrap(), "prj-kilo");
}

use chatgate::modes::{parse_mode_activation, ModeConfig, ModeRegistry};

#[test]
fn parse_mode_activation_with_brackets() {
    assert_eq!(parse_mode_activation("<@U1234> [pm]"), Some("pm".to_string()));
}

#[test]
fn parse_mode_activation_without_brackets() {
    assert_eq!(parse_mode_activation("<@U1234> pm"), Some("pm".to_string()));
}

#[test]
fn parse_mode_activation_case_insensitive() {
    assert_eq!(parse_mode_activation("<@U1234> [PM]"), Some("pm".to_string()));
}

#[test]
fn parse_mode_activation_empty_after_mention() {
    assert_eq!(parse_mode_activation("<@U1234>"), None);
}

#[test]
fn parse_mode_activation_no_mention() {
    assert_eq!(parse_mode_activation("pm"), None);
}

#[test]
fn parse_mode_activation_multi_word() {
    assert_eq!(parse_mode_activation("<@U1234> create an issue"), None);
}

#[test]
fn parse_mode_activation_with_extra_text_in_brackets() {
    assert_eq!(parse_mode_activation("<@U1234> [pm] hello"), Some("pm".to_string()));
}

#[test]
fn parse_mode_activation_empty_brackets() {
    assert_eq!(parse_mode_activation("<@U1234> []"), None);
}

#[test]
fn parse_mode_activation_rejects_oversized_name() {
    let long_name = "a".repeat(65);
    let msg = format!("<@U1234> {}", long_name);
    assert_eq!(parse_mode_activation(&msg), None);

    let bracketed = format!("<@U1234> [{}]", long_name);
    assert_eq!(parse_mode_activation(&bracketed), None);
}

#[test]
fn parse_mode_activation_accepts_max_length_name() {
    let name = "a".repeat(64);
    let msg = format!("<@U1234> {}", name);
    assert_eq!(parse_mode_activation(&msg), Some(name));
}

#[test]
fn mode_registry_empty() {
    let registry = ModeRegistry::from_config(&Vec::new(), "", "");
    assert!(registry.mode_names().is_empty());
    assert!(!registry.has_mode("pm"));
    assert!(registry.get_mode("pm").is_none());
}

#[test]
fn mode_registry_builds_prompts_and_sorts_names() {
    let configs = vec![
        ModeConfig { name: "pm".into(), response_policy: Some("be brief".into()), tools: vec![] },
        ModeConfig { name: "dev".into(), response_policy: None, tools: vec!["shell".into()] },
    ];
    let registry = ModeRegistry::from_config(&configs, "BASE", "+TOOLS");
    assert_eq!(registry.mode_names(), vec!["dev".to_string(), "pm".to_string()]);
    let pm = registry.get_mode("pm").unwrap();
    assert_eq!(pm.system_prompt, "BASE+TOOLS\n## Response Policy\n\nbe brief\n\n");
    assert_eq!(registry.get_mode("dev").unwrap().system_prompt, "BASE+TOOLS");
    assert!(registry.has_mode("dev"));
}

#[test]
fn parse_mode_activation_lowercases_unicode() {
    assert_eq!(parse_mode_activation("  hi <@U1> ÉQUIPE  "), Some("équipe".to_string()));
}

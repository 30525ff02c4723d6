use chatgate::linear::{validate_linear_url, LinearUrlError};
use chatgate::tools::{AskUserError, AskUserTool};

#[test]
fn ask_user_name() {
    assert_eq!(AskUserTool.name(), "ask_user");
}

#[test]
fn ask_user_description_not_empty() {
    assert!(!AskUserTool.description().is_empty());
}

#[test]
fn ask_user_returns_trimmed_question_or_failure() {
    let ok = AskUserTool.answer("  which repo?  ");
    assert!(ok.success);
    assert_eq!(ok.output, "which repo?");
    assert!(ok.error.is_none());
    let empty = AskUserTool.answer("   ");
    assert!(!empty.success);
    assert_eq!(empty.error.as_deref(), Some("'question' parameter must not be empty"));
}

#[test]
fn ask_user_execute_checks_arguments() {
    let args: serde_json::Value = serde_json::from_str(r#"{"question": " why? "}"#).unwrap();
    assert_eq!(AskUserTool.execute(&args).unwrap().output, "why?");
    let missing: serde_json::Value = serde_json::from_str("{}").unwrap();
    assert_eq!(AskUserTool.execute(&missing).err(), Some(AskUserError::MissingQuestion));
    let number: serde_json::Value = serde_json::from_str(r#"{"question": 3}"#).unwrap();
    assert_eq!(AskUserTool.execute(&number).err(), Some(AskUserError::NotAString));
}

#[test]
fn linear_tool_rejects_non_linear_url() {
    assert!(validate_linear_url("https://api.linear.app/graphql").is_ok());
    let err = validate_linear_url("https://evil.com/graphql").unwrap_err().message();
    assert!(err.contains("linear.endpoint"), "expected allowlist error, got: {err}");
    let err = validate_linear_url("https://192.168.1.1/graphql").unwrap_err().message();
    assert!(err.contains("linear.endpoint"), "expected allowlist error, got: {err}");
    let err = validate_linear_url("http://api.linear.app/graphql").unwrap_err().message();
    assert!(err.contains("https://"), "expected scheme error, got: {err}");
}

#[test]
fn linear_url_host_must_match_exactly() {
    assert_eq!(validate_linear_url("https://api.linear.app.evil.com/"), Err(LinearUrlError::HostNotAllowed));
    assert_eq!(validate_linear_url("https://api.linear.app@evil.com/"), Err(LinearUrlError::HostNotAllowed));
    assert!(validate_linear_url("https://api.linear.app:443/graphql").is_ok());
    assert!(validate_linear_url("https://api.linear.app").is_ok());
}

fn args(text: &str) -> serde_json::Value {
    serde_json::from_str(text).unwrap()
}

#[test]
fn ask_user_returns_question_as_output() {
    let result = AskUserTool.execute(&args(r#"{"question": "Which project are you asking about?"}"#)).unwrap();
    assert!(result.success);
    assert_eq!(result.output, "Which project are you asking about?");
    assert!(result.error.is_none());
}

#[test]
fn ask_user_trims_whitespace_from_output() {
    let result = AskUserTool.execute(&args(r#"{"question": "  Which project?  "}"#)).unwrap();
    assert!(result.success);
    assert_eq!(result.output, "Which project?");
}

#[test]
fn ask_user_missing_question_returns_err() {
    let result = AskUserTool.execute(&args("{}"));
    assert!(result.is_err());
    assert!(result.unwrap_err().message().contains("question"));
}

#[test]
fn ask_user_non_string_question_returns_err() {
    let result = AskUserTool.execute(&args(r#"{"question": 42}"#));
    assert!(result.is_err());
    let msg = result.unwrap_err().message();
    assert!(msg.contains("string"), "expected type mismatch error, got: {msg}");
}

#[test]
fn ask_user_null_question_returns_err() {
    assert!(AskUserTool.execute(&args(r#"{"question": null}"#)).is_err());
}

#[test]
fn ask_user_blank_question_returns_failure() {
    let result = AskUserTool.execute(&args(r#"{"question": "   "}"#)).unwrap();
    assert!(!result.success);
    assert!(result.error.as_deref().unwrap_or("").contains("must not be empty"));
    assert!(!result.output.is_empty(), "output should mirror error for consistent ToolResult contract");
}

#[test]
fn ask_user_empty_string_question_returns_failure() {
    let result = AskUserTool.execute(&args(r#"{"question": ""}"#)).unwrap();
    assert!(!result.success);
    assert!(result.error.as_deref().unwrap_or("").contains("must not be empty"));
}

use chatgate::mention::{contains_bot_mention, find_bot_mention_spans, is_mattermost_username_char, normalize_content};

fn none() -> Vec<String> {
    Vec::new()
}

#[test]
fn contains_mention_text_at_end() {
    assert!(contains_bot_mention("hello @mybot", "bot123", "mybot", &none()));
}

#[test]
fn contains_mention_text_at_start() {
    assert!(contains_bot_mention("@mybot hello", "bot123", "mybot", &none()));
}

#[test]
fn contains_mention_text_alone() {
    assert!(contains_bot_mention("@mybot", "bot123", "mybot", &none()));
}

#[test]
fn no_mention_different_username() {
    assert!(!contains_bot_mention("@otherbot hello", "bot123", "mybot", &none()));
}

#[test]
fn no_mention_partial_username() {
    assert!(!contains_bot_mention("@mybotx hello", "bot123", "mybot", &none()));
}

#[test]
fn mention_detects_later_valid_mention_after_partial_prefix() {
    assert!(contains_bot_mention("@mybotx ignore this, but @mybot handle this", "bot123", "mybot", &none()));
}

#[test]
fn mention_followed_by_punctuation() {
    assert!(contains_bot_mention("@mybot, hello", "bot123", "mybot", &none()));
}

#[test]
fn mention_via_metadata_only() {
    assert!(contains_bot_mention("no at mention", "bot123", "mybot", &vec!["bot123".to_string()]));
}

#[test]
fn no_mention_empty_username_no_metadata() {
    assert!(!contains_bot_mention("hello world", "bot123", "", &none()));
}

#[test]
fn normalize_strips_and_trims() {
    let result = normalize_content("  @mybot  do stuff  ", "bot123", "mybot", &none());
    assert_eq!(result.as_deref(), Some("do stuff"));
}

#[test]
fn normalize_returns_none_for_no_mention() {
    assert!(normalize_content("hello world", "bot123", "mybot", &none()).is_none());
}

#[test]
fn normalize_returns_none_when_only_mention() {
    assert!(normalize_content("@mybot", "bot123", "mybot", &none()).is_none());
}

#[test]
fn normalize_preserves_text_for_metadata_mention() {
    let result = normalize_content("check this out", "bot123", "mybot", &vec!["bot123".to_string()]);
    assert_eq!(result.as_deref(), Some("check this out"));
}

#[test]
fn normalize_strips_multiple_mentions() {
    let result = normalize_content("@mybot hello @mybot world", "bot123", "mybot", &none());
    assert_eq!(result.as_deref(), Some("hello   world"));
}

#[test]
fn mention_spans_are_byte_ranges() {
    assert_eq!(find_bot_mention_spans("héllo @MyBot!", "mybot"), vec![(7, 13)]);
    assert_eq!(find_bot_mention_spans("@mybot.x @mybot", "mybot"), vec![(9, 15)]);
    assert_eq!(find_bot_mention_spans("@mybot@mybot", "mybot"), vec![(0, 6), (6, 12)]);
    assert!(find_bot_mention_spans("@mybot", "").is_empty());
}

#[test]
fn username_chars() {
    assert!(is_mattermost_username_char('a'));
    assert!(is_mattermost_username_char('-'));
    assert!(is_mattermost_username_char('.'));
    assert!(!is_mattermost_username_char(','));
    assert!(!is_mattermost_username_char('é'));
}

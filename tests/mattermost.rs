use chatgate::mattermost::{
    avatar_content_type, avatar_too_large, normalize_group_reply_allowed_sender_ids,
    post_from_value, profile_from_identity, profile_needs_update, ws_reconnect_delay,
    MattermostChannel,
};

const NOW: u64 = 1_000_000;

fn json(text: &str) -> serde_json::Value {
    serde_json::from_str(text).unwrap()
}

fn on_ws(
    ch: &mut MattermostChannel,
    event: &serde_json::Value,
    bot_user_id: &str,
    bot_username: &str,
    now_ms: u64,
) -> Option<chatgate::channel::ChannelMessage> {
    let (post, channel) = chatgate::mattermost::posted_event(event)?;
    ch.parse_ws_posted_event(&post, &channel, bot_user_id, bot_username, now_ms)
}

fn make_channel(allowed: Vec<String>, thread_replies: bool) -> MattermostChannel {
    MattermostChannel::new(
        "url".into(),
        "token".into(),
        None,
        allowed,
        thread_replies,
        false,
        30,
        None,
        false,
        None,
    )
}

fn make_mention_only_channel() -> MattermostChannel {
    MattermostChannel::new(
        "url".into(),
        "token".into(),
        None,
        vec!["*".into()],
        true,
        true,
        30,
        None,
        false,
        None,
    )
}

fn parse(
    ch: &mut MattermostChannel,
    post: &str,
    bot_id: &str,
    bot_name: &str,
    last: i64,
    channel: &str,
) -> Option<chatgate::channel::ChannelMessage> {
    let p = post_from_value(&json(post));
    ch.parse_mattermost_post(&p, bot_id, bot_name, last, channel, NOW)
}

#[test]
fn mattermost_url_trimming() {
    let ch = MattermostChannel::new(
        "https://mm.example.com/".into(),
        "token".into(),
        None,
        vec![],
        false,
        false,
        30,
        None,
        false,
        None,
    );
    assert_eq!(ch.base_url(), "https://mm.example.com");
}

#[test]
fn mattermost_allowlist_wildcard() {
    let ch = make_channel(vec!["*".into()], false);
    assert!(ch.is_user_allowed("any-id"));
}

#[test]
fn mattermost_parse_post_basic() {
    let mut ch = make_channel(vec!["*".into()], true);
    let msg = parse(&mut ch, r#"{"id": "post123", "user_id": "user456", "message": "hello world", "create_at": 1600000000000, "root_id": ""}"#, "bot123", "botname", 1_500_000_000_000, "chan789").unwrap();
    assert_eq!(msg.sender, "user456");
    assert_eq!(msg.content, "hello world");
    assert_eq!(msg.reply_target, "chan789:post123");
    assert_eq!(msg.id, "mattermost_post123");
    assert_eq!(msg.timestamp, 1_600_000_000);
}

#[test]
fn mattermost_parse_post_thread() {
    let mut ch = make_channel(vec!["*".into()], false);
    let msg = parse(&mut ch, r#"{"id": "post123", "user_id": "user456", "message": "reply", "create_at": 1600000000000, "root_id": "root789"}"#, "bot123", "botname", 1_500_000_000_000, "chan789").unwrap();
    assert_eq!(msg.reply_target, "chan789:root789");
}

#[test]
fn mattermost_parse_post_ignore_self() {
    let mut ch = make_channel(vec!["*".into()], false);
    let msg = parse(&mut ch, r#"{"id": "post123", "user_id": "bot123", "message": "my own message", "create_at": 1600000000000}"#, "bot123", "botname", 1_500_000_000_000, "chan789");
    assert!(msg.is_none());
}

#[test]
fn mattermost_parse_post_ignore_old() {
    let mut ch = make_channel(vec!["*".into()], false);
    let msg = parse(&mut ch, r#"{"id": "post123", "user_id": "user456", "message": "old message", "create_at": 1400000000000}"#, "bot123", "botname", 1_500_000_000_000, "chan789");
    assert!(msg.is_none());
}

#[test]
fn mattermost_parse_post_no_thread_when_disabled() {
    let mut ch = make_channel(vec!["*".into()], false);
    let msg = parse(&mut ch, r#"{"id": "post123", "user_id": "user456", "message": "hello world", "create_at": 1600000000000, "root_id": ""}"#, "bot123", "botname", 1_500_000_000_000, "chan789").unwrap();
    assert_eq!(msg.reply_target, "chan789");
}

#[test]
fn mention_only_skips_message_without_mention() {
    let mut ch = make_mention_only_channel();
    let msg = parse(&mut ch, r#"{"id": "post1", "user_id": "user1", "message": "hello everyone", "create_at": 1600000000000, "root_id": ""}"#, "bot123", "mybot", 1_500_000_000_000, "chan1");
    assert!(msg.is_none());
}

#[test]
fn mention_only_accepts_message_with_at_mention() {
    let mut ch = make_mention_only_channel();
    let msg = parse(&mut ch, r#"{"id": "post1", "user_id": "user1", "message": "@mybot what is the weather?", "create_at": 1600000000000, "root_id": ""}"#, "bot123", "mybot", 1_500_000_000_000, "chan1").unwrap();
    assert_eq!(msg.content, "what is the weather?");
}

#[test]
fn mention_only_strips_mention_and_trims() {
    let mut ch = make_mention_only_channel();
    let msg = parse(&mut ch, r#"{"id": "post1", "user_id": "user1", "message": "  @mybot  run status  ", "create_at": 1600000000000, "root_id": ""}"#, "bot123", "mybot", 1_500_000_000_000, "chan1").unwrap();
    assert_eq!(msg.content, "run status");
}

#[test]
fn mention_only_rejects_empty_after_stripping() {
    let mut ch = make_mention_only_channel();
    let msg = parse(&mut ch, r#"{"id": "post1", "user_id": "user1", "message": "@mybot", "create_at": 1600000000000, "root_id": ""}"#, "bot123", "mybot", 1_500_000_000_000, "chan1");
    assert!(msg.is_none());
}

#[test]
fn mention_only_case_insensitive() {
    let mut ch = make_mention_only_channel();
    let msg = parse(&mut ch, r#"{"id": "post1", "user_id": "user1", "message": "@MyBot hello", "create_at": 1600000000000, "root_id": ""}"#, "bot123", "mybot", 1_500_000_000_000, "chan1").unwrap();
    assert_eq!(msg.content, "hello");
}

#[test]
fn mention_only_detects_metadata_mentions() {
    let mut ch = make_mention_only_channel();
    let msg = parse(&mut ch, r#"{"id": "post1", "user_id": "user1", "message": "hey check this out", "create_at": 1600000000000, "root_id": "", "metadata": {"mentions": ["bot123"]}}"#, "bot123", "mybot", 1_500_000_000_000, "chan1").unwrap();
    assert_eq!(msg.content, "hey check this out");
}

#[test]
fn mention_only_word_boundary_prevents_partial_match() {
    let mut ch = make_mention_only_channel();
    let msg = parse(&mut ch, r#"{"id": "post1", "user_id": "user1", "message": "@mybotextended hello", "create_at": 1600000000000, "root_id": ""}"#, "bot123", "mybot", 1_500_000_000_000, "chan1");
    assert!(msg.is_none());
}

#[test]
fn mention_only_mention_in_middle_of_text() {
    let mut ch = make_mention_only_channel();
    let msg = parse(&mut ch, r#"{"id": "post1", "user_id": "user1", "message": "hey @mybot how are you?", "create_at": 1600000000000, "root_id": ""}"#, "bot123", "mybot", 1_500_000_000_000, "chan1").unwrap();
    assert_eq!(msg.content, "hey   how are you?");
}

#[test]
fn mention_only_disabled_passes_all_messages() {
    let mut ch = make_channel(vec!["*".into()], true);
    let msg = parse(&mut ch, r#"{"id": "post1", "user_id": "user1", "message": "no mention here", "create_at": 1600000000000, "root_id": ""}"#, "bot123", "mybot", 1_500_000_000_000, "chan1").unwrap();
    assert_eq!(msg.content, "no mention here");
}

#[test]
fn mention_only_sender_override_allows_without_mention() {
    let mut ch = make_mention_only_channel()
        .with_group_reply_allowed_senders(vec!["user1".into(), " user1 ".into()]);
    let msg = parse(&mut ch, r#"{"id": "post1", "user_id": "user1", "message": "hello everyone", "create_at": 1600000000000, "root_id": ""}"#, "bot123", "mybot", 1_500_000_000_000, "chan1").unwrap();
    assert_eq!(msg.content, "hello everyone");
}

#[test]
fn thread_continuation_after_mention() {
    let mut ch = make_mention_only_channel();
    let first = parse(&mut ch, r#"{"id": "root", "user_id": "user1", "message": "@mybot start", "create_at": 2, "root_id": ""}"#, "bot123", "mybot", 0, "chan1");
    assert!(first.is_some());
    let follow = parse(&mut ch, r#"{"id": "p2", "user_id": "user1", "message": "and more", "create_at": 3, "root_id": "root"}"#, "bot123", "mybot", 0, "chan1").unwrap();
    assert_eq!(follow.content, "and more");
    assert_eq!(follow.reply_target, "chan1:root");
}

#[test]
fn bare_mention_in_active_thread_produces_nothing() {
    let mut ch = make_mention_only_channel();
    let first = parse(&mut ch, r#"{"id": "A", "user_id": "U1", "message": "@mybot hi", "create_at": 1, "root_id": "root_post"}"#, "bot123", "mybot", 0, "chan1");
    assert!(first.is_some());
    let before = ch.parse_mattermost_post(
        &post_from_value(&json(r#"{"id": "B", "user_id": "U1", "message": "@mybot", "create_at": 2, "root_id": "root_post"}"#)),
        "bot123",
        "mybot",
        0,
        "chan1",
        NOW + 29 * 60_000,
    );
    assert!(before.is_none());
    // The bare mention did not refresh the thread: once the first window has passed it is closed.
    let late = ch.parse_mattermost_post(
        &post_from_value(&json(r#"{"id": "C", "user_id": "U1", "message": "still there?", "create_at": 3, "root_id": "root_post"}"#)),
        "bot123",
        "mybot",
        0,
        "chan1",
        NOW + 30 * 60_000,
    );
    assert!(late.is_none());
}

#[test]
fn ws_posted_event_is_parsed_twice() {
    let mut ch = make_channel(vec!["*".into()], false);
    let event = json(r#"{"event": "posted", "data": {"post": "{\"id\":\"p1\",\"user_id\":\"u1\",\"message\":\"hi\",\"create_at\":5,\"root_id\":\"\"}"}, "broadcast": {"channel_id": "c9"}}"#);
    let msg = on_ws(&mut ch, &event, "bot", "mybot", NOW).unwrap();
    assert_eq!(msg.content, "hi");
    assert_eq!(msg.reply_target, "c9");
    let bad = json(r#"{"data": {"post": "{not json"}, "broadcast": {}}"#);
    assert!(on_ws(&mut ch, &bad, "bot", "mybot", NOW).is_none());
}

#[test]
fn websocket_url_rewrites_scheme() {
    let ch = MattermostChannel::new("https://mm.example.com/".into(), "t".into(), None, vec![], false, false, 30, None, false, None);
    assert_eq!(ch.websocket_url(), "wss://mm.example.com/api/v4/websocket");
    let ch = MattermostChannel::new("http://mm.local".into(), "t".into(), None, vec![], false, false, 30, None, false, None);
    assert_eq!(ch.websocket_url(), "ws://mm.local/api/v4/websocket");
}

#[test]
fn ws_reconnect_delays_double_then_cap_and_give_up() {
    let delays: Vec<Option<u64>> = (1..=10).map(ws_reconnect_delay).collect();
    assert_eq!(
        delays,
        vec![Some(1), Some(2), Some(4), Some(8), Some(16), Some(32), Some(60), Some(60), Some(60), None]
    );
}

#[test]
fn normalize_group_reply_allowed_sender_ids_deduplicates() {
    let normalized = normalize_group_reply_allowed_sender_ids(vec![
        " user-1 ".into(),
        "user-1".into(),
        String::new(),
        "user-2".into(),
    ]);
    assert_eq!(normalized, vec!["user-1".to_string(), "user-2".to_string()]);
}

#[test]
fn group_sender_trigger_requires_nonempty_id() {
    let ch = make_mention_only_channel().with_group_reply_allowed_senders(vec!["*".into()]);
    assert!(ch.is_group_sender_trigger_enabled(" u1 "));
    assert!(!ch.is_group_sender_trigger_enabled("   "));
}

#[test]
fn profile_fields_cut_description_and_pick_avatar_type() {
    let doc = json(&format!(
        r#"{{"identity": {{"names": {{"first": "Nova"}}, "bio": "{}", "avatar_url": "https://x.io/a.png?cb=1"}}}}"#,
        "b".repeat(200)
    ));
    let p = profile_from_identity(&doc);
    assert_eq!(p.display_name, "Nova");
    assert_eq!(p.description.chars().count(), 128);
    assert!(profile_needs_update(&p));
    assert_eq!(avatar_content_type(p.avatar_url.as_deref().unwrap()), "image/png");
    assert_eq!(avatar_content_type("https://x.io/a.jpg?x=.png"), "image/jpeg");
    assert!(avatar_too_large(Some(10 * 1024 * 1024 + 1)));
    assert!(!avatar_too_large(Some(10 * 1024 * 1024)));
    assert!(!avatar_too_large(None));
    let empty = profile_from_identity(&json("{}"));
    assert!(!profile_needs_update(&empty));
}

#[test]
fn profile_sync_prefers_trimmed_admin_token() {
    let with_admin = MattermostChannel::new("u".into(), "bot".into(), None, vec![], false, false, 30, None, true, Some(" adm ".into()));
    assert_eq!(with_admin.profile_sync_token(), "adm");
    let blank = MattermostChannel::new("u".into(), "bot".into(), None, vec![], false, false, 30, None, true, Some("  ".into()));
    assert_eq!(blank.profile_sync_token(), "bot");
}

#[test]
fn auth_reply_accepts_only_ok_status() {
    assert_eq!(chatgate::mattermost::auth_reply(Some("OK")), chatgate::mattermost::AuthReply::Accepted);
    assert_eq!(chatgate::mattermost::auth_reply(Some("FAIL")), chatgate::mattermost::AuthReply::Refused);
    assert_eq!(chatgate::mattermost::auth_reply(None), chatgate::mattermost::AuthReply::Pending);
}

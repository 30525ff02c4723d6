use chatgate::activity::ThreadActivity;
use chatgate::mattermost::{post_from_value, MattermostChannel};
use chatgate::mention::normalize_content;

const NOW: u64 = 5_000_000;

fn json(text: &str) -> serde_json::Value {
    serde_json::from_str(text).unwrap()
}

fn on_ws(
    ch: &mut MattermostChannel,
    event: &serde_json::Value,
    bot_user_id: &str,
    bot_username: &str,
    now_ms: u64,
) -> Option<chatgate::channel::ChannelMessage> {
    let (post, channel) = chatgate::mattermost::posted_event(event)?;
    ch.parse_ws_posted_event(&post, &channel, bot_user_id, bot_username, now_ms)
}

fn channel(channel_id: Option<&str>, allowed: Vec<String>, thread_replies: bool, mention_only: bool) -> MattermostChannel {
    MattermostChannel::new(
        "url".into(),
        "token".into(),
        channel_id.map(String::from),
        allowed,
        thread_replies,
        mention_only,
        30,
        None,
        false,
        None,
    )
}

fn make_channel(allowed: Vec<String>, thread_replies: bool) -> MattermostChannel {
    channel(None, allowed, thread_replies, false)
}

fn make_mention_only_channel() -> MattermostChannel {
    channel(None, vec!["*".into()], true, true)
}

fn ws_event(data_extra: &str, post_json: &str, broadcast: &str) -> serde_json::Value {
    let post = serde_json::Value::String(post_json.to_string()).to_string();
    json(&format!(r#"{{"event": "posted", "data": {{{data_extra}"post": {post}}}, "broadcast": {broadcast}}}"#))
}

fn make_ws_event(channel_id: &str, post_json: &str) -> serde_json::Value {
    ws_event("", post_json, &format!(r#"{{"channel_id": "{channel_id}"}}"#))
}

fn parse(ch: &mut MattermostChannel, post: &str) -> Option<chatgate::channel::ChannelMessage> {
    ch.parse_mattermost_post(&post_from_value(&json(post)), "bot123", "mybot", 0, "chan1", NOW)
}

fn new_channel(base: &str) -> MattermostChannel {
    MattermostChannel::new(base.into(), "token".into(), None, vec![], false, false, 30, None, false, None)
}

#[test]
fn normalize_keeps_partial_username_mentions() {
    let result = normalize_content("@mybot hello @mybotx world", "bot123", "mybot", &Vec::new());
    assert_eq!(result.as_deref(), Some("hello @mybotx world"));
}

#[test]
fn websocket_url_converts_https() {
    assert_eq!(new_channel("https://mm.example.com").websocket_url(), "wss://mm.example.com/api/v4/websocket");
}

#[test]
fn websocket_url_converts_http() {
    assert_eq!(new_channel("http://localhost:8065").websocket_url(), "ws://localhost:8065/api/v4/websocket");
}

#[test]
fn websocket_url_trims_trailing_slash_before_converting() {
    assert_eq!(new_channel("https://mm.example.com/").websocket_url(), "wss://mm.example.com/api/v4/websocket");
}

#[test]
fn websocket_url_no_scheme_defaults_to_wss() {
    assert_eq!(new_channel("mm.example.com").websocket_url(), "wss://mm.example.com/api/v4/websocket");
}

#[test]
fn parse_ws_posted_event_basic() {
    let mut ch = make_channel(vec!["*".into()], true);
    let post_json = r#"{"id":"post1","user_id":"user1","message":"hello ws","create_at":1600000000001,"root_id":""}"#;
    let event = make_ws_event("chan1", post_json);
    let msg = on_ws(&mut ch, &event, "bot123", "mybot", NOW).unwrap();
    assert_eq!(msg.sender, "user1");
    assert_eq!(msg.content, "hello ws");
    assert_eq!(msg.reply_target, "chan1:post1");
}

#[test]
fn parse_ws_posted_event_dm_channel() {
    let mut ch = make_channel(vec!["*".into()], false);
    let post_json = r#"{"id":"post2","user_id":"user1","message":"dm message","create_at":1600000000001,"root_id":""}"#;
    let event = ws_event(r#""channel_type": "D", "#, post_json, r#"{"channel_id": "dm_chan_abc"}"#);
    let msg = on_ws(&mut ch, &event, "bot123", "mybot", NOW).unwrap();
    assert_eq!(msg.sender, "user1");
    assert_eq!(msg.content, "dm message");
    assert_eq!(msg.reply_target, "dm_chan_abc");
}

#[test]
fn parse_ws_posted_event_filters_by_channel_id() {
    let mut ch = channel(Some("allowed_chan"), vec!["*".into()], false, false);
    let post_json = r#"{"id":"post1","user_id":"user1","message":"hello","create_at":1600000000001,"root_id":""}"#;
    assert!(on_ws(&mut ch, &make_ws_event("other_chan", post_json), "bot123", "mybot", NOW).is_none());
    assert!(on_ws(&mut ch, &make_ws_event("allowed_chan", post_json), "bot123", "mybot", NOW).is_some());
}

#[test]
fn parse_ws_posted_event_no_channel_filter_receives_all() {
    let mut ch = make_channel(vec!["*".into()], false);
    let post_json = r#"{"id":"post1","user_id":"user1","message":"hi","create_at":1600000000001,"root_id":""}"#;
    assert!(on_ws(&mut ch, &make_ws_event("chan_a", post_json), "bot123", "mybot", NOW).is_some());
    assert!(on_ws(&mut ch, &make_ws_event("chan_b", post_json), "bot123", "mybot", NOW).is_some());
}

#[test]
fn parse_ws_posted_event_ignores_self_messages() {
    let mut ch = make_channel(vec!["*".into()], false);
    let post_json = r#"{"id":"post1","user_id":"bot123","message":"my own message","create_at":1600000000001,"root_id":""}"#;
    assert!(on_ws(&mut ch, &make_ws_event("chan1", post_json), "bot123", "mybot", NOW).is_none());
}

#[test]
fn parse_ws_posted_event_falls_back_to_post_channel_id() {
    let mut ch = make_channel(vec!["*".into()], false);
    let post_json = r#"{"id":"post1","user_id":"user1","message":"hello","create_at":1600000000001,"root_id":"","channel_id":"post_chan"}"#;
    let event = ws_event(r#""channel_type": "O", "#, post_json, r#"{"channel_id": ""}"#);
    let msg = on_ws(&mut ch, &event, "bot123", "mybot", NOW).unwrap();
    assert_eq!(msg.reply_target, "post_chan");
}

#[test]
fn parse_ws_posted_event_mention_only_filters_non_mentions() {
    let mut ch = make_mention_only_channel();
    let post_json = r#"{"id":"post1","user_id":"user1","message":"hello everyone","create_at":1600000000001,"root_id":""}"#;
    assert!(on_ws(&mut ch, &make_ws_event("chan1", post_json), "bot123", "mybot", NOW).is_none());
}

#[test]
fn parse_ws_posted_event_mention_only_strips_mention() {
    let mut ch = make_mention_only_channel();
    let post_json = r#"{"id":"post1","user_id":"user1","message":"@mybot do the thing","create_at":1600000000001,"root_id":""}"#;
    let msg = on_ws(&mut ch, &make_ws_event("chan1", post_json), "bot123", "mybot", NOW).unwrap();
    assert_eq!(msg.content, "do the thing");
}

#[test]
fn parse_ws_posted_event_both_channel_ids_missing_returns_none() {
    let mut ch = make_channel(vec!["*".into()], false);
    let post_json = r#"{"id":"post1","user_id":"user1","message":"hi","create_at":1600000000001,"root_id":""}"#;
    let event = ws_event("", post_json, "{}");
    assert!(on_ws(&mut ch, &event, "bot123", "mybot", NOW).is_none());
}

#[test]
fn parse_ws_posted_event_unauthorized_user_returns_none() {
    let mut ch = make_channel(vec![], false);
    let post_json = r#"{"id":"post1","user_id":"user1","message":"hello","create_at":1600000000001,"root_id":""}"#;
    assert!(on_ws(&mut ch, &make_ws_event("chan1", post_json), "bot123", "mybot", NOW).is_none());
}

#[test]
fn parse_ws_posted_event_invalid_post_json_returns_none() {
    let mut ch = make_channel(vec!["*".into()], false);
    let event = ws_event("", "not valid json {{", r#"{"channel_id": "chan1"}"#);
    assert!(on_ws(&mut ch, &event, "bot123", "mybot", NOW).is_none());
}

#[test]
fn thread_continuation_activates_on_mention_and_allows_followup() {
    let mut ch = make_mention_only_channel();
    let msg = parse(&mut ch, r#"{"id": "root_post", "user_id": "user1", "message": "@mybot start something", "create_at": 1600000000001, "root_id": ""}"#).unwrap();
    assert_eq!(msg.content, "start something");
    assert_eq!(msg.reply_target, "chan1:root_post");
    let msg = parse(&mut ch, r#"{"id": "reply_post", "user_id": "user1", "message": "and then do this too", "create_at": 1600000000002, "root_id": "root_post"}"#).unwrap();
    assert_eq!(msg.content, "and then do this too");
    assert_eq!(msg.reply_target, "chan1:root_post");
}

#[test]
fn thread_continuation_unrelated_channel_not_activated() {
    let mut ch = make_mention_only_channel();
    assert!(parse(&mut ch, r#"{"id": "root_a", "user_id": "user1", "message": "@mybot hello", "create_at": 1600000000001, "root_id": ""}"#).is_some());
    assert!(parse(&mut ch, r#"{"id": "reply_b", "user_id": "user1", "message": "what is up", "create_at": 1600000000002, "root_id": "root_b"}"#).is_none());
}

#[test]
fn thread_continuation_self_message_in_active_thread_returns_none() {
    let mut ch = make_mention_only_channel();
    assert!(parse(&mut ch, r#"{"id": "root_post", "user_id": "user1", "message": "@mybot start", "create_at": 1600000000001, "root_id": ""}"#).is_some());
    assert!(parse(&mut ch, r#"{"id": "bot_reply", "user_id": "bot123", "message": "here is my response", "create_at": 1600000000002, "root_id": "root_post"}"#).is_none());
}

#[test]
fn thread_continuation_unauthorized_user_in_active_thread_returns_none() {
    let mut ch = channel(None, vec!["authorized_user".into()], true, true);
    assert!(parse(&mut ch, r#"{"id": "root_post", "user_id": "authorized_user", "message": "@mybot start", "create_at": 1600000000001, "root_id": ""}"#).is_some());
    assert!(parse(&mut ch, r#"{"id": "reply_post", "user_id": "intruder", "message": "what can you do?", "create_at": 1600000000002, "root_id": "root_post"}"#).is_none());
}

#[test]
fn thread_continuation_second_mention_strips_mention_not_raw() {
    let mut ch = make_mention_only_channel();
    assert!(parse(&mut ch, r#"{"id": "root_post", "user_id": "user1", "message": "@mybot start", "create_at": 1600000000001, "root_id": ""}"#).is_some());
    let msg = parse(&mut ch, r#"{"id": "reply_post", "user_id": "user1", "message": "@mybot do more", "create_at": 1600000000002, "root_id": "root_post"}"#).unwrap();
    assert_eq!(msg.content, "do more");
}

#[test]
fn thread_continuation_bare_mention_in_active_thread_returns_none() {
    let mut ch = make_mention_only_channel();
    assert!(parse(&mut ch, r#"{"id": "root_post", "user_id": "user1", "message": "@mybot start", "create_at": 1600000000001, "root_id": ""}"#).is_some());
    assert!(parse(&mut ch, r#"{"id": "bare_post", "user_id": "user1", "message": "@mybot", "create_at": 1600000000002, "root_id": "root_post"}"#).is_none());
}

#[test]
fn thread_state_is_active_returns_false_when_empty() {
    let state = ThreadActivity::new(30);
    assert!(!state.is_active("no_such_thread", NOW));
}

#[test]
fn thread_state_touch_and_is_active() {
    let mut state = ThreadActivity::new(30);
    state.touch("thread_xyz", NOW);
    assert!(state.is_active("thread_xyz", NOW));
    assert!(!state.is_active("other_thread", NOW));
}

#[test]
fn thread_ttl_zero_expires_immediately() {
    let mut state = ThreadActivity::new(0);
    state.touch("thread_xyz", NOW);
    assert!(!state.is_active("thread_xyz", NOW));
}

#[test]
fn touch_evicts_expired_threads() {
    let mut state = ThreadActivity::new(1);
    state.touch("old", 0);
    assert!(state.is_active("old", 59_999));
    state.touch("new", 60_000);
    assert!(!state.is_active("old", 0));
    assert!(state.is_active("new", 60_000));
}

#[test]
fn mattermost_parse_post_thread_replies_enabled() {
    let mut ch = make_channel(vec!["*".into()], true);
    let msg = ch.parse_mattermost_post(&post_from_value(&json(r#"{"id": "post123", "user_id": "user456", "message": "hello world", "create_at": 1600000000000, "root_id": ""}"#)), "bot123", "botname", 1_500_000_000_000, "chan789", NOW).unwrap();
    assert_eq!(msg.reply_target, "chan789:post123");
}

#[test]
fn mattermost_existing_thread_always_threads() {
    let mut ch = make_channel(vec!["*".into()], false);
    let msg = ch.parse_mattermost_post(&post_from_value(&json(r#"{"id": "post123", "user_id": "user456", "message": "reply in thread", "create_at": 1600000000000, "root_id": "root789"}"#)), "bot123", "botname", 1_500_000_000_000, "chan789", NOW).unwrap();
    assert_eq!(msg.reply_target, "chan789:root789");
}

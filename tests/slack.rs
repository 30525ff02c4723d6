use chatgate::slack::{
    classify_envelope, classify_frame, escape_mrkdwn, event_from_payload, extract_event_message,
    handle_block_action, handle_view_submission, heartbeat_expired, issue_confirmation_text,
    message_id, next_backoff, normalized_channel_id, parse_block_action_context, validate_wss_url,
    draft_summary, EnvelopeKind, EnvelopeOutcome, FrameKind, SlackChannel, SlackEvent,
    ViewSubmission, WssUrlError,
};
use chatgate::thread_table::ThreadTable;

fn json(text: &str) -> serde_json::Value {
    serde_json::from_str(text).unwrap()
}

fn test_channel() -> SlackChannel {
    SlackChannel::new("xoxb-fake".into(), None, None, vec![])
}

#[test]
fn normalized_channel_id_respects_wildcard_and_blank() {
    assert_eq!(normalized_channel_id(None), None);
    assert_eq!(normalized_channel_id(Some("")), None);
    assert_eq!(normalized_channel_id(Some("   ")), None);
    assert_eq!(normalized_channel_id(Some("*")), None);
    assert_eq!(normalized_channel_id(Some(" * ")), None);
    assert_eq!(normalized_channel_id(Some(" C12345 ")), Some("C12345".to_string()));
}

#[test]
fn empty_allowlist_denies_everyone() {
    let ch = test_channel();
    assert!(!ch.is_user_allowed("U12345"));
    assert!(!ch.is_user_allowed("anyone"));
}

#[test]
fn wildcard_allows_everyone() {
    let ch = SlackChannel::new("xoxb-fake".into(), None, None, vec!["*".into()]);
    assert!(ch.is_user_allowed("U12345"));
}

#[test]
fn specific_allowlist_filters() {
    let ch = SlackChannel::new("xoxb-fake".into(), None, None, vec!["U111".into(), "U222".into()]);
    assert!(ch.is_user_allowed("U111"));
    assert!(ch.is_user_allowed("U222"));
    assert!(!ch.is_user_allowed("U333"));
}

#[test]
fn allowlist_exact_match_not_substring() {
    let ch = SlackChannel::new("xoxb-fake".into(), None, None, vec!["U111".into()]);
    assert!(!ch.is_user_allowed("U1111"));
    assert!(!ch.is_user_allowed("U11"));
}

#[test]
fn allowlist_empty_user_id() {
    let ch = SlackChannel::new("xoxb-fake".into(), None, None, vec!["U111".into()]);
    assert!(!ch.is_user_allowed(""));
}

#[test]
fn allowlist_case_sensitive() {
    let ch = SlackChannel::new("xoxb-fake".into(), None, None, vec!["U111".into()]);
    assert!(ch.is_user_allowed("U111"));
    assert!(!ch.is_user_allowed("u111"));
}

#[test]
fn allowlist_wildcard_and_specific() {
    let ch = SlackChannel::new("xoxb-fake".into(), None, None, vec!["U111".into(), "*".into()]);
    assert!(ch.is_user_allowed("U111"));
    assert!(ch.is_user_allowed("anyone"));
}

#[test]
fn slack_message_id_format_includes_channel_and_ts() {
    assert_eq!(message_id("C12345", "1234567890.123456"), "slack_C12345_1234567890.123456");
}

#[test]
fn slack_message_id_different_ts_different_id() {
    assert_ne!(message_id("C12345", "1234567890.123456"), message_id("C12345", "1234567890.123457"));
}

#[test]
fn validate_wss_url_accepts_slack_domain() {
    assert!(validate_wss_url("wss://wss-primary.slack.com/link").is_ok());
    assert!(validate_wss_url("wss://cerberus-xxl.lb.slack.com/foo").is_ok());
    assert!(validate_wss_url("wss://slack.com:443/x").is_ok());
}

#[test]
fn validate_wss_url_rejects_non_wss_scheme() {
    assert_eq!(validate_wss_url("ws://wss-primary.slack.com/link"), Err(WssUrlError::NotWss));
    assert!(validate_wss_url("http://wss-primary.slack.com/link").is_err());
}

#[test]
fn validate_wss_url_rejects_non_slack_host() {
    assert_eq!(validate_wss_url("wss://evil.com/link"), Err(WssUrlError::NotSlackHost));
    assert!(validate_wss_url("wss://notslack.com/link").is_err());
    assert!(validate_wss_url("wss://evil-slack.com/link").is_err());
}

#[test]
fn extract_event_message_normal() {
    let payload = json(r#"{"event": {"type": "message", "user": "U123", "text": "hello world", "channel": "C456", "ts": "1234567890.000001"}}"#);
    let ev = event_from_payload(&payload).unwrap();
    let (user, text, channel, ts, thread_ts) = extract_event_message(&ev, "BXXX").unwrap();
    assert_eq!(user, "U123");
    assert_eq!(text, "hello world");
    assert_eq!(channel, "C456");
    assert_eq!(ts, "1234567890.000001");
    assert_eq!(thread_ts.as_deref(), Some("1234567890.000001"));
}

#[test]
fn extract_event_message_threaded_reply() {
    let payload = json(r#"{"event": {"type": "message", "user": "U123", "text": "reply in thread", "channel": "C456", "ts": "1234567890.000010", "thread_ts": "1234567890.000001"}}"#);
    let ev = event_from_payload(&payload).unwrap();
    let (_u, _t, _c, ts, thread_ts) = extract_event_message(&ev, "BXXX").unwrap();
    assert_eq!(ts, "1234567890.000010");
    assert_eq!(thread_ts.as_deref(), Some("1234567890.000001"));
}

#[test]
fn extract_event_message_skips_bots_subtypes_and_self() {
    let sub = json(r#"{"event": {"type": "message", "subtype": "message_changed", "user": "U1", "text": "x", "channel": "C", "ts": "1"}}"#);
    assert!(extract_event_message(&event_from_payload(&sub).unwrap(), "B").is_none());
    let bot = json(r#"{"event": {"type": "message", "bot_id": "B9", "user": "U1", "text": "x", "channel": "C", "ts": "1"}}"#);
    assert!(extract_event_message(&event_from_payload(&bot).unwrap(), "B").is_none());
    let me = json(r#"{"event": {"type": "message", "user": "B", "text": "x", "channel": "C", "ts": "1"}}"#);
    assert!(extract_event_message(&event_from_payload(&me).unwrap(), "B").is_none());
    let other = json(r#"{"event": {"type": "reaction_added", "user": "U1", "text": "x", "channel": "C", "ts": "1"}}"#);
    assert!(extract_event_message(&event_from_payload(&other).unwrap(), "B").is_none());
}

fn mention_event(kind: &str, channel: &str, ts: &str, user: &str) -> SlackEvent {
    SlackEvent {
        event_type: kind.into(),
        has_subtype: false,
        has_bot_id: false,
        user: user.into(),
        text: "hey".into(),
        channel: channel.into(),
        ts: ts.into(),
        thread_ts: None,
    }
}

#[test]
fn app_mention_wakes_sleeping_thread() {
    let mut ch = SlackChannel::new("xoxb".into(), Some("xapp".into()), None, vec!["*".into()]);
    let mut timers: ThreadTable<u32> = ThreadTable::new();
    assert!(ch.handle_event(&mention_event("message", "C1", "T1", "U1"), "B", 1).is_some());
    ch.mark_sleeping("C1:T1");
    assert!(!ch.is_awake("C1:T1"));
    let d = ch.handle_event(&mention_event("app_mention", "C1", "T1", "U1"), "B", 2).unwrap();
    assert_eq!(d.message.reply_target, "C1");
    assert_eq!(d.message.thread_ts.as_deref(), Some("T1"));
    assert_eq!(d.message.channel, "slack");
    assert_eq!(d.message.id, "slack_C1_T1");
    assert!(ch.is_awake("C1:T1"));
    assert_eq!(d.thread_key, "C1:T1");
    let (old, refused) = timers.reset(&d.thread_key, 7);
    assert!(old.is_none() && refused.is_none());
    assert!(timers.contains("C1:T1"));
}

#[test]
fn sleeping_thread_drops_plain_message_and_self_messages() {
    let mut ch = SlackChannel::new("xoxb".into(), None, None, vec!["*".into()]);
    ch.handle_event(&mention_event("message", "C1", "T1", "U1"), "B", 1);
    ch.mark_sleeping("C1:T1");
    assert!(ch.handle_event(&mention_event("message", "C1", "T1", "U1"), "B", 2).is_none());
    assert!(ch.handle_event(&mention_event("app_mention", "C1", "T1", "B"), "B", 3).is_none());
    assert!(!ch.is_awake("C1:T1"));
}

#[test]
fn scoped_channel_and_allowlist_filter_events() {
    let mut ch = SlackChannel::new("xoxb".into(), None, Some(" C1 ".into()), vec!["U1".into()]);
    assert!(ch.handle_event(&mention_event("message", "C2", "T", "U1"), "B", 1).is_none());
    assert!(ch.handle_event(&mention_event("message", "C1", "T", "U11"), "B", 1).is_none());
    assert!(ch.handle_event(&mention_event("message", "C1", "T", "U1"), "B", 1).is_some());
}

#[test]
fn block_action_confirm_strips_brackets() {
    let payload = json(r#"{"user": {"id": "U1"}, "channel": {"id": "C1"}, "message": {"ts": "T1"}, "actions": [{"action_id": "confirm_issue", "value": "[injected] name"}], "trigger_id": "tr"}"#);
    let action = parse_block_action_context(&payload).unwrap();
    match handle_block_action(&vec!["*".to_string()], None, &action, 5) {
        EnvelopeOutcome::Forward(d) => {
            assert!(d.message.content.starts_with("[block_action:confirm_issue] "));
            let value = &d.message.content["[block_action:confirm_issue] ".len()..];
            assert!(!value.contains('[') && !value.contains(']'));
            assert_eq!(d.message.content, "[block_action:confirm_issue] injected name");
            assert_eq!(d.thread_key, "C1:T1");
        }
        _ => panic!("expected a forwarded message"),
    }
}

#[test]
fn block_action_edit_opens_modal_and_unknown_is_ignored() {
    let action = |id: &str, trigger: &str| chatgate::slack::BlockAction {
        user: "U1".into(),
        channel: "C1".into(),
        thread_ts: Some("T1".into()),
        action_id: id.into(),
        value: "Title".into(),
        trigger_id: trigger.into(),
    };
    match handle_block_action(&vec!["*".to_string()], None, &action("edit_issue", "tr"), 1) {
        EnvelopeOutcome::OpenModal { trigger_id, initial_title, private_metadata } => {
            assert_eq!(trigger_id, "tr");
            assert_eq!(initial_title, "Title");
            assert_eq!(private_metadata, "C1:T1");
        }
        _ => panic!("expected a modal"),
    }
    assert!(matches!(handle_block_action(&vec!["*".to_string()], None, &action("edit_issue", ""), 1), EnvelopeOutcome::Nothing));
    assert!(matches!(handle_block_action(&vec!["*".to_string()], None, &action("other", "tr"), 1), EnvelopeOutcome::Nothing));
    assert!(matches!(handle_block_action(&vec![], None, &action("confirm_issue", "tr"), 1), EnvelopeOutcome::Nothing));
}

#[test]
fn view_submission_uses_private_metadata() {
    let vs = ViewSubmission {
        user: "U1".into(),
        callback_id: "edit_issue_modal".into(),
        private_metadata: "C1:T1".into(),
        title: "New".into(),
        description: "Desc".into(),
    };
    let d = handle_view_submission(&vec!["*".to_string()], None, &vs, 3).unwrap();
    assert_eq!(d.message.content, "[view_submission:edit_issue_modal] title=New description=Desc");
    assert_eq!(d.message.reply_target, "C1");
    assert_eq!(d.message.thread_ts.as_deref(), Some("T1"));
    assert_eq!(d.thread_key, "C1:T1");
    let no_channel = ViewSubmission { private_metadata: ":T1".into(), ..vs };
    assert!(handle_view_submission(&vec!["*".to_string()], None, &no_channel, 3).is_none());
}

#[test]
fn reconnect_backoff_doubles_caps_and_resets() {
    let mut backoff = 1;
    let mut waits = Vec::new();
    for _ in 0..8 {
        let (wait, next) = next_backoff(backoff, 5);
        waits.push(wait);
        backoff = next;
    }
    assert_eq!(waits, vec![1, 2, 4, 8, 16, 32, 60, 60]);
    assert_eq!(next_backoff(60, 31), (1, 2));
    assert_eq!(next_backoff(60, 30), (60, 60));
}

#[test]
fn heartbeat_times_out_after_sixty_seconds() {
    assert!(!heartbeat_expired(60));
    assert!(heartbeat_expired(61));
}

#[test]
fn frames_and_envelopes_are_classified() {
    assert_eq!(classify_frame("hello"), FrameKind::Hello);
    assert_eq!(classify_frame("disconnect"), FrameKind::Disconnect);
    assert_eq!(classify_frame("events_api"), FrameKind::Envelope);
    assert_eq!(classify_envelope("events_api", ""), EnvelopeKind::Event);
    assert_eq!(classify_envelope("interactive", "block_actions"), EnvelopeKind::BlockActions);
    assert_eq!(classify_envelope("interactive", "view_submission"), EnvelopeKind::ViewSubmission);
    assert_eq!(classify_envelope("slash_commands", ""), EnvelopeKind::Ignored);
}

#[test]
fn mrkdwn_texts_escape_user_input() {
    assert_eq!(escape_mrkdwn("<@U1> & co"), "&lt;@U1&gt; &amp; co");
    assert_eq!(draft_summary("a<b", "c"), "*Draft Issue*\n*Title:* a&lt;b\n*Description:* c");
    assert_eq!(
        issue_confirmation_text("T&C", "https://x.io/?a=1&b|c"),
        ":white_check_mark: *Issue created:* <https://x.io/?a=1&b%7Cc|T&amp;C>"
    );
}

#[test]
fn timer_table_aborts_predecessor_and_drains() {
    let mut t: ThreadTable<u32> = ThreadTable::new();
    assert_eq!(t.reset("a", 1), (None, None));
    assert_eq!(t.reset("a", 2), (Some(1), None));
    assert_eq!(t.len(), 1);
    assert_eq!(t.take("a"), Some(2));
    assert_eq!(t.take("a"), None);
    t.reset("b", 3);
    t.reset("c", 4);
    let mut all = t.drain();
    all.sort();
    assert_eq!(all, vec![3, 4]);
    assert_eq!(t.len(), 0);
}

#[test]
fn timer_table_refuses_new_timer_when_full() {
    let mut t: ThreadTable<usize> = ThreadTable::new();
    for i in 0..10_000 {
        t.reset(&format!("k{i}"), i);
    }
    assert_eq!(t.reset("extra", 99), (None, Some(99)));
    assert!(!t.contains("extra"));
    assert_eq!(t.reset("k5", 100), (Some(5), None));
}

#[test]
fn extract_channel_ids_filters_archived_and_non_member_entries() {
    let payload = json(r#"{"channels": [
        {"id": "C1", "is_archived": false, "is_member": true},
        {"id": "C2", "is_archived": true, "is_member": true},
        {"id": "C3", "is_archived": false, "is_member": false},
        {"id": "C1", "is_archived": false, "is_member": true},
        {"id": "C4"}
    ]}"#);
    let ids = chatgate::slack::extract_channel_ids(&payload);
    assert_eq!(ids, vec!["C1".to_string(), "C4".to_string()]);
}

#[test]
fn channel_listing_cursor_and_page_cap() {
    let page = json(r#"{"response_metadata": {"next_cursor": "  abc "}}"#);
    assert_eq!(chatgate::slack::next_cursor(&page).as_deref(), Some("abc"));
    let last = json(r#"{"response_metadata": {"next_cursor": ""}}"#);
    assert_eq!(chatgate::slack::next_cursor(&last), None);
    assert!(chatgate::slack::read_another_page(49, true));
    assert!(!chatgate::slack::read_another_page(50, true));
    assert!(!chatgate::slack::read_another_page(1, false));
}

//! Slack Socket Mode: connection checks, reconnect backoff, and the decisions
//! taken on each inbound envelope.
use vstd::prelude::*;
use crate::text::{
    at_char, bytes_le, chars_of, dedup_in_order, first_where, lemma_first_where, lemma_first_where_bound,
    lemma_first_where_holds, push_char, push_str, sort_strings, str_eq, string_of, sub_chars, trim,
    trim_bounds, views,
};
use crate::mention::holds_id;
use crate::channel::{ChannelMessage, colon_join, copy_str, join_with_colon, opt_chars, opt_string_chars};
use crate::wake_sleep::{EventDecision, WakeSleepEngine, step};
use crate::json::{array_at, bool_at, has_at, str_at, str_at_or};
use vstd::utf8::encode_utf8;
use vstd::string::StringSliceAdditionalSpecFns;

verus! {

/// Whether `user` may talk to the bot: the allowlist holds `"*"` or exactly `user`.
pub open spec fn authorized(allowed: Seq<String>, user: Seq<char>) -> bool {
    holds_id(allowed, "*"@) || holds_id(allowed, user)
}

/// Whether `user_id` is allowed by `allowed_users` (`["*"]` allows everyone, an
/// empty list nobody). Ids match whole and case-sensitively, never as substrings.
pub fn is_user_allowed(allowed_users: &Vec<String>, user_id: &str) -> (r: bool)
    ensures
        r == authorized(allowed_users@, user_id@),
{
    proof {
        reveal_strlit("*");
    }
    let mut i: usize = 0;
    while i < allowed_users.len()
        invariant
            i <= allowed_users.len(),
            forall|j: int|
                0 <= j < i ==> (#[trigger] allowed_users@[j])@ != "*"@ && allowed_users@[j]@
                    != user_id@,
        decreases allowed_users.len() - i,
    {
        let u = allowed_users[i].as_str();
        if str_eq(u, "*") || str_eq(u, user_id) {
            assert(allowed_users@[i as int]@ == "*"@ || allowed_users@[i as int]@ == user_id@);
            return true;
        }
        i = i + 1;
    }
    false
}

/// `s` up to (not including) its first `c`.
pub open spec fn before_char(s: Seq<char>, c: char) -> Seq<char> {
    s.take(first_where(s.len() as int, at_char(s, c)))
}

/// The host of a `wss://` URL: after the scheme, up to the first `/`, then up
/// to the first `:`.
pub open spec fn wss_host(url: Seq<char>) -> Seq<char> {
    before_char(before_char(url.skip(6), '/'), ':')
}

/// Whether `host` is `slack.com` or a subdomain of it (`evil-slack.com` is not).
pub open spec fn is_slack_host(host: Seq<char>) -> bool {
    host == "slack.com"@ || (host.len() >= 10 && host.skip(host.len() - 10) == ".slack.com"@)
}

/// Why a Socket Mode URL was refused.
#[derive(Debug, Clone, Copy, PartialEq, Eq, Structural)]
pub enum WssUrlError {
    /// The URL does not start with `wss://`.
    NotWss,
    /// The host is not `slack.com` or one of its subdomains.
    NotSlackHost,
}

fn prefix_of(cs: &Vec<char>, c: char) -> (r: Vec<char>)
    ensures
        r@ == before_char(cs@, c),
{
    let mut i: usize = 0;
    while i < cs.len() && cs[i] != c
        invariant
            i <= cs.len(),
            forall|j: int| 0 <= j < i ==> cs@[j] != c,
        decreases cs.len() - i,
    {
        i = i + 1;
    }
    proof {
        assert forall|j: int| 0 <= j < i implies !#[trigger] at_char(cs@, c)(j) by {}
        lemma_first_where(cs@.len() as int, at_char(cs@, c), i as int);
    }
    let r = sub_chars(cs, 0, i);
    assert(r@ =~= cs@.take(i as int));
    r
}

fn chars_eq(a: &Vec<char>, lo: usize, b: &str) -> (r: bool)
    requires
        lo <= a.len(),
    ensures
        r == (a@.skip(lo as int) == b@),
{
    let bs = chars_of(b);
    if a.len() - lo != bs.len() {
        assert(a@.skip(lo as int).len() != b@.len());
        return false;
    }
    let mut i: usize = 0;
    while i < bs.len()
        invariant
            bs@ == b@,
            a.len() - lo == bs.len(),
            lo <= a.len(),
            i <= bs.len(),
            forall|j: int| 0 <= j < i ==> a@[lo + j] == bs@[j],
        decreases bs.len() - i,
    {
        if a[lo + i] != bs[i] {
            assert(a@.skip(lo as int)[i as int] != b@[i as int]);
            return false;
        }
        i = i + 1;
    }
    assert(a@.skip(lo as int) =~= b@);
    true
}

/// Checks the Socket Mode URL handed out by `apps.connections.open`: scheme
/// `wss://`, host `slack.com` or a subdomain of it (port allowed).
pub fn validate_wss_url(url: &str) -> (r: Result<(), WssUrlError>)
    ensures
        !(url@.len() >= 6 && url@.take(6) == "wss://"@) ==> r == Err::<(), _>(WssUrlError::NotWss),
        url@.len() >= 6 && url@.take(6) == "wss://"@ ==> (r is Ok <==> is_slack_host(wss_host(url@))),
        url@.len() >= 6 && url@.take(6) == "wss://"@ && r is Err ==> r == Err::<(), _>(
            WssUrlError::NotSlackHost,
        ),
{
    proof {
        reveal_strlit("wss://");
        reveal_strlit("slack.com");
        reveal_strlit(".slack.com");
    }
    let cs = chars_of(url);
    if cs.len() < 6 || !(cs[0] == 'w' && cs[1] == 's' && cs[2] == 's' && cs[3] == ':' && cs[4] == '/'
        && cs[5] == '/') {
        proof {
            if url@.len() >= 6 && url@.take(6) == "wss://"@ {
                assert(url@.take(6)[0] == 'w' && url@.take(6)[1] == 's' && url@.take(6)[2] == 's');
                assert(url@.take(6)[3] == ':' && url@.take(6)[4] == '/' && url@.take(6)[5] == '/');
            }
        }
        return Err(WssUrlError::NotWss);
    }
    assert(url@.take(6) =~= "wss://"@);
    let rest = sub_chars(&cs, 6, cs.len());
    assert(rest@ =~= url@.skip(6));
    let host_port = prefix_of(&rest, '/');
    let host = prefix_of(&host_port, ':');
    let exact = chars_eq(&host, 0, "slack.com");
    assert(host@.skip(0) =~= host@);
    let sub = host.len() >= 10 && chars_eq(&host, host.len() - 10, ".slack.com");
    if exact || sub {
        Ok(())
    } else {
        Err(WssUrlError::NotSlackHost)
    }
}

/// First reconnect delay, in seconds.
pub const INITIAL_BACKOFF_SECS: u64 = 1;

/// Longest reconnect delay, in seconds.
pub const MAX_BACKOFF_SECS: u64 = 60;

/// A connection that lived longer than this many seconds resets the backoff.
pub const STABLE_CONNECTION_SECS: u64 = 30;

/// No inbound frame for longer than this many seconds means the socket is dead.
pub const HEARTBEAT_TIMEOUT_SECS: u64 = 60;

/// The delay before the next reconnect attempt and the backoff after it, given
/// the current backoff and how long the connection that just ended lived.
pub open spec fn backoff_step(backoff: u64, lived_secs: u64) -> (u64, u64) {
    let wait = if lived_secs > STABLE_CONNECTION_SECS { INITIAL_BACKOFF_SECS } else { backoff };
    (wait, if wait * 2 > MAX_BACKOFF_SECS { MAX_BACKOFF_SECS } else { (wait * 2) as u64 })
}

/// Decides the reconnect delay after a Socket Mode connection ends: the current
/// backoff, or one second when the connection had been stable; the next backoff
/// doubles the delay, capped at `MAX_BACKOFF_SECS`.
pub fn next_backoff(backoff: u64, lived_secs: u64) -> (r: (u64, u64))
    requires
        backoff <= MAX_BACKOFF_SECS,
    ensures
        r == backoff_step(backoff, lived_secs),
        r.1 <= MAX_BACKOFF_SECS,
{
    let wait = if lived_secs > STABLE_CONNECTION_SECS { INITIAL_BACKOFF_SECS } else { backoff };
    let next = if wait * 2 > MAX_BACKOFF_SECS { MAX_BACKOFF_SECS } else { wait * 2 };
    (wait, next)
}

/// Whether a socket idle for `idle_secs` seconds has missed its heartbeat.
pub fn heartbeat_expired(idle_secs: u64) -> (r: bool)
    ensures
        r == (idle_secs > HEARTBEAT_TIMEOUT_SECS),
{
    idle_secs > HEARTBEAT_TIMEOUT_SECS
}

/// The backoff before the reconnect that follows `n` short-lived connections.
pub open spec fn quick_failure_backoff(n: nat) -> u64
    decreases n,
{
    if n == 0 {
        INITIAL_BACKOFF_SECS
    } else {
        backoff_step(quick_failure_backoff((n - 1) as nat), 0).1
    }
}

/// `2^n`, capped at `MAX_BACKOFF_SECS`.
pub open spec fn capped_pow2(n: nat) -> int
    decreases n,
{
    if n == 0 {
        1
    } else if 2 * capped_pow2((n - 1) as nat) > MAX_BACKOFF_SECS {
        MAX_BACKOFF_SECS as int
    } else {
        2 * capped_pow2((n - 1) as nat)
    }
}

/// After `n` connections that each died within `STABLE_CONNECTION_SECS`, the
/// reconnect delays run 1, 2, 4, ... seconds, doubling up to `MAX_BACKOFF_SECS`
/// and staying there; a stable connection brings the next delay back to 1 s.
pub proof fn lemma_backoff_doubles_then_caps(n: nat, backoff: u64, lived_secs: u64)
    requires
        backoff <= MAX_BACKOFF_SECS,
        lived_secs > STABLE_CONNECTION_SECS,
    ensures
        quick_failure_backoff(n) == capped_pow2(n),
        1 <= quick_failure_backoff(n) <= MAX_BACKOFF_SECS,
        backoff_step(backoff, lived_secs).0 == INITIAL_BACKOFF_SECS,
    decreases n,
{
    if n > 0 {
        lemma_backoff_doubles_then_caps((n - 1) as nat, backoff, lived_secs);
    }
}

/// The fields of an `events_api` event that the bot reads.
pub struct SlackEvent {
    /// `event.type`.
    pub event_type: String,
    /// Whether `event.subtype` is present (edits, deletions, bot posts).
    pub has_subtype: bool,
    /// Whether `event.bot_id` is present.
    pub has_bot_id: bool,
    /// `event.user`, empty when absent.
    pub user: String,
    /// `event.text`, empty when absent.
    pub text: String,
    /// `event.channel`, empty when absent.
    pub channel: String,
    /// `event.ts`, empty when absent.
    pub ts: String,
    /// `event.thread_ts`, when present.
    pub thread_ts: Option<String>,
}

/// Whether an event is a human message worth reading: a `message` or
/// `app_mention` with no subtype and no bot id, not sent by the bot itself,
/// with user, text, channel and timestamp all present.
pub open spec fn event_accepted(ev: SlackEvent, bot_user_id: Seq<char>) -> bool {
    &&& (ev.event_type@ == "message"@ || ev.event_type@ == "app_mention"@)
    &&& !ev.has_subtype
    &&& !ev.has_bot_id
    &&& ev.user@ != bot_user_id
    &&& ev.text@.len() > 0
    &&& ev.user@.len() > 0
    &&& ev.channel@.len() > 0
    &&& ev.ts@.len() > 0
}

/// The thread root of an event: its `thread_ts`, else its own `ts`.
pub open spec fn event_root(ev: SlackEvent) -> Seq<char> {
    match ev.thread_ts {
        Some(t) => t@,
        None => ev.ts@,
    }
}

/// Picks the fields `(user, text, channel, ts, thread_ts)` of an event that the
/// bot should read, `thread_ts` falling back to `ts`; `None` for any other event.
pub fn extract_event_message(ev: &SlackEvent, bot_user_id: &str) -> (r: Option<
    (String, String, String, String, Option<String>),
>)
    ensures
        r is Some <==> event_accepted(*ev, bot_user_id@),
        r matches Some(f) ==> f.0@ == ev.user@ && f.1@ == ev.text@ && f.2@ == ev.channel@ && f.3@
            == ev.ts@ && (f.4 matches Some(t) && t@ == event_root(*ev)),
{
    proof {
        reveal_strlit("message");
        reveal_strlit("app_mention");
    }
    let t = ev.event_type.as_str();
    if !str_eq(t, "message") && !str_eq(t, "app_mention") {
        return None;
    }
    if ev.has_subtype || ev.has_bot_id {
        return None;
    }
    if str_eq(ev.user.as_str(), bot_user_id) {
        return None;
    }
    if ev.text.as_str().is_empty() || ev.user.as_str().is_empty() || ev.channel.as_str().is_empty()
        || ev.ts.as_str().is_empty() {
        return None;
    }
    let root = match &ev.thread_ts {
        Some(t) => copy_str(t.as_str()),
        None => copy_str(ev.ts.as_str()),
    };
    Some(
        (
            copy_str(ev.user.as_str()),
            copy_str(ev.text.as_str()),
            copy_str(ev.channel.as_str()),
            copy_str(ev.ts.as_str()),
            Some(root),
        ),
    )
}

/// The channel a Slack adapter is limited to: the configured id, trimmed, unless
/// it is empty or `"*"`.
pub open spec fn scope_of(input: Option<Seq<char>>) -> Option<Seq<char>> {
    match input {
        Some(s) => if trim(s).len() > 0 && trim(s) != "*"@ {
            Some(trim(s))
        } else {
            None
        },
        None => None,
    }
}

/// Normalises a configured channel id: trimmed; blank or `"*"` means no limit.
pub fn normalized_channel_id(input: Option<&str>) -> (r: Option<String>)
    ensures
        r matches Some(s) ==> scope_of(opt_chars(input)) == Some(s@),
        r is None ==> scope_of(opt_chars(input)) is None,
{
    proof {
        reveal_strlit("*");
    }
    match input {
        None => None,
        Some(s) => {
            let cs = chars_of(s);
            let (lo, hi) = trim_bounds(&cs);
            let t = string_of(&cs, lo, hi);
            if lo == hi || str_eq(t.as_str(), "*") {
                None
            } else {
                Some(t)
            }
        },
    }
}

/// The id of a Slack message: `slack_<channel>_<ts>`.
pub open spec fn slack_message_id(channel: Seq<char>, ts: Seq<char>) -> Seq<char> {
    "slack_"@ + channel + seq!['_'] + ts
}

/// Formats the id of a Slack message from its channel and timestamp.
pub fn message_id(channel_id: &str, ts: &str) -> (r: String)
    ensures
        r@ == slack_message_id(channel_id@, ts@),
{
    proof {
        reveal_strlit("slack_");
    }
    let mut r = String::new();
    push_str(&mut r, "slack_");
    push_str(&mut r, channel_id);
    push_char(&mut r, '_');
    push_str(&mut r, ts);
    assert(r@ =~= slack_message_id(channel_id@, ts@));
    r
}

/// A message for the agent, and the thread whose inactivity timer it resets.
pub struct Delivery {
    /// The message to enqueue.
    pub message: ChannelMessage,
    /// Key of the thread's wake/sleep state and timer, `"<channel>:<root>"`.
    pub thread_key: String,
    /// Channel for the sleep notice.
    pub timer_channel: String,
    /// Thread root for the sleep notice.
    pub timer_ts: String,
}

/// Whether `channel` is the scoped channel, when there is one.
pub open spec fn in_scope(scoped: Option<Seq<char>>, channel: Seq<char>) -> bool {
    match scoped {
        Some(c) => channel == c,
        None => true,
    }
}

/// Whether an event gets past the filters before the wake/sleep check: accepted,
/// in the scoped channel if there is one, from an allowed user.
pub open spec fn event_passes(
    ev: SlackEvent,
    bot_user_id: Seq<char>,
    scoped: Option<Seq<char>>,
    allowed: Seq<String>,
) -> bool {
    &&& event_accepted(ev, bot_user_id)
    &&& in_scope(scoped, ev.channel@)
    &&& authorized(allowed, ev.user@)
}

/// The bot never reads its own messages: an event sent by the bot's user id
/// never gets past the filters, so it is dropped and leaves the thread state alone.
pub proof fn lemma_own_events_dropped(
    ev: SlackEvent,
    bot_user_id: Seq<char>,
    scoped: Option<Seq<char>>,
    allowed: Seq<String>,
)
    requires
        ev.user@ == bot_user_id,
    ensures
        !event_passes(ev, bot_user_id, scoped, allowed),
{
}

/// The message handed on for an accepted event, and the thread it resets.
pub open spec fn event_delivery(d: Delivery, ev: SlackEvent, now_secs: u64) -> bool {
    &&& d.message.id@ == slack_message_id(ev.channel@, ev.ts@)
    &&& d.message.sender@ == ev.user@
    &&& d.message.reply_target@ == ev.channel@
    &&& d.message.content@ == ev.text@
    &&& d.message.channel@ == "slack"@
    &&& d.message.timestamp == now_secs
    &&& (d.message.thread_ts matches Some(t) && t@ == event_root(ev))
    &&& d.thread_key@ == colon_join(ev.channel@, event_root(ev))
    &&& d.timer_channel@ == ev.channel@
    &&& d.timer_ts@ == event_root(ev)
}

/// What an `events_api` event does: from the wake/sleep state `before` it leads to
/// `after` and the delivery `r`. Events that do not pass the filters change
/// nothing; the others take one wake/sleep step (an `app_mention` is a mention)
/// and are delivered unless discarded.
pub open spec fn event_outcome(
    before: Map<Seq<char>, bool>,
    after: Map<Seq<char>, bool>,
    allowed: Seq<String>,
    scoped: Option<Seq<char>>,
    ev: SlackEvent,
    bot_user_id: Seq<char>,
    now_secs: u64,
    r: Option<Delivery>,
) -> bool {
    &&& !event_passes(ev, bot_user_id, scoped, allowed) ==> r is None && after == before
    &&& event_passes(ev, bot_user_id, scoped, allowed) ==> {
        let (m, d) = step(before, colon_join(ev.channel@, event_root(ev)), ev.event_type@ == "app_mention"@);
        &&& after == m
        &&& (r is Some <==> d != EventDecision::Discard)
    }
    &&& (r matches Some(d) ==> event_delivery(d, ev, now_secs))
}

/// Decides what to do with an `events_api` event.
///
/// Skipped events, events outside the scoped channel and events from users not
/// on the allowlist give `None` and leave the wake/sleep state alone. The others
/// go through the wake/sleep engine (an `app_mention` counts as a mention): a
/// discarded event gives `None`, a forwarded or waking one a message whose
/// thread is `thread_ts`, else `ts`.
pub fn dispatch_event(
    wake_sleep: &mut WakeSleepEngine,
    allowed_users: &Vec<String>,
    scoped_channel: Option<&str>,
    ev: &SlackEvent,
    bot_user_id: &str,
    now_secs: u64,
) -> (r: Option<Delivery>)
    requires
        old(wake_sleep).wf(),
    ensures
        final(wake_sleep).wf(),
        event_outcome(
            old(wake_sleep)@,
            final(wake_sleep)@,
            allowed_users@,
            opt_chars(scoped_channel),
            *ev,
            bot_user_id@,
            now_secs,
            r,
        ),
{
    proof {
        reveal_strlit("app_mention");
        reveal_strlit("slack");
    }
    let (user, text, channel, ts, thread_ts) = match extract_event_message(ev, bot_user_id) {
        Some(f) => f,
        None => return None,
    };
    if let Some(scoped) = scoped_channel {
        if !str_eq(channel.as_str(), scoped) {
            return None;
        }
    }
    if !is_user_allowed(allowed_users, user.as_str()) {
        return None;
    }
    let root = match &thread_ts {
        Some(t) => copy_str(t.as_str()),
        None => copy_str(ts.as_str()),
    };
    let thread_key = join_with_colon(channel.as_str(), root.as_str());
    let is_mention = str_eq(ev.event_type.as_str(), "app_mention");
    let decision = wake_sleep.on_event(thread_key.as_str(), is_mention);
    if decision == EventDecision::Discard {
        return None;
    }
    let message = ChannelMessage {
        id: message_id(channel.as_str(), ts.as_str()),
        sender: user,
        reply_target: copy_str(channel.as_str()),
        content: text,
        channel: copy_str("slack"),
        timestamp: now_secs,
        thread_ts,
    };
    Some(Delivery { message, thread_key, timer_channel: channel, timer_ts: root })
}

/// The fields of a `block_actions` payload that the bot reads.
pub struct BlockAction {
    /// `user.id`.
    pub user: String,
    /// `channel.id`.
    pub channel: String,
    /// `message.thread_ts`, else `message.ts`, when present and not empty.
    pub thread_ts: Option<String>,
    /// `actions[0].action_id`.
    pub action_id: String,
    /// `actions[0].value`, empty when absent.
    pub value: String,
    /// `trigger_id`, empty when absent.
    pub trigger_id: String,
}

/// `s` without `[` and `]`, so a value cannot forge a tag in a synthetic message.
pub open spec fn strip_brackets(s: Seq<char>) -> Seq<char>
    decreases s.len(),
{
    if s.len() == 0 {
        Seq::empty()
    } else if s.last() == '[' || s.last() == ']' {
        strip_brackets(s.drop_last())
    } else {
        strip_brackets(s.drop_last()).push(s.last())
    }
}

/// The content of the synthetic message for a block action.
pub open spec fn block_action_content(action_id: Seq<char>, value: Seq<char>) -> Seq<char> {
    "[block_action:"@ + action_id + "] "@ + strip_brackets(value)
}

fn remove_brackets(s: &str) -> (r: String)
    ensures
        r@ == strip_brackets(s@),
{
    let cs = chars_of(s);
    let mut r = String::new();
    let mut i: usize = 0;
    while i < cs.len()
        invariant
            cs@ == s@,
            i <= cs.len(),
            r@ == strip_brackets(cs@.take(i as int)),
        decreases cs.len() - i,
    {
        assert(cs@.take(i + 1).drop_last() =~= cs@.take(i as int));
        if cs[i] != '[' && cs[i] != ']' {
            push_char(&mut r, cs[i]);
        }
        i = i + 1;
    }
    assert(cs@.take(cs@.len() as int) =~= cs@);
    r
}

/// What a block action leads to. Actions from users off the allowlist, or from
/// outside the scoped channel, do nothing. `edit_issue` with a trigger id opens
/// the modal; `confirm_issue` and `cancel_issue` forward a synthetic message;
/// nothing else does anything.
pub open spec fn block_outcome(
    allowed: Seq<String>,
    scoped: Option<Seq<char>>,
    action: BlockAction,
    now_secs: u64,
    r: EnvelopeOutcome,
) -> bool {
    let suffix = match action.thread_ts {
        Some(t) => t@,
        None => action.channel@,
    };
    &&& (!authorized(allowed, action.user@) || !in_scope(scoped, action.channel@)) ==> r is Nothing
    &&& r is OpenModal ==> action.action_id@ == "edit_issue"@ && action.trigger_id@.len() > 0
    &&& r is Forward ==> (action.action_id@ == "confirm_issue"@ || action.action_id@ == "cancel_issue"@)
    &&& authorized(allowed, action.user@) && in_scope(scoped, action.channel@) ==> {
        &&& (action.action_id@ == "confirm_issue"@ || action.action_id@ == "cancel_issue"@) ==> r is Forward
        &&& (action.action_id@ == "edit_issue"@ && action.trigger_id@.len() > 0) ==> r is OpenModal
    }
    &&& (r matches EnvelopeOutcome::OpenModal { trigger_id, initial_title, private_metadata } ==> {
        &&& trigger_id@ == action.trigger_id@
        &&& initial_title@ == action.value@
        &&& private_metadata@ == match action.thread_ts {
            Some(t) => colon_join(action.channel@, t@),
            None => action.channel@,
        }
    })
    &&& (r matches EnvelopeOutcome::Forward(d) ==> {
        &&& d.message.content@ == block_action_content(action.action_id@, action.value@)
        &&& d.message.sender@ == action.user@
        &&& d.message.reply_target@ == action.channel@
        &&& d.message.channel@ == "slack"@
        &&& d.message.timestamp == now_secs
        &&& opt_string_chars(d.message.thread_ts) == opt_string_chars(action.thread_ts)
        &&& d.thread_key@ == colon_join(action.channel@, suffix)
        &&& d.timer_channel@ == action.channel@
        &&& d.timer_ts@ == suffix
    })
}

/// Decides what to do with a `block_actions` payload.
///
/// Actions from users off the allowlist, or from outside the scoped channel, are
/// ignored. `edit_issue` opens the edit modal (given a trigger id), with
/// `private_metadata` `"<channel>:<thread>"` or `"<channel>"`. `confirm_issue` and
/// `cancel_issue` become the message `"[block_action:<id>] <value>"`, the value
/// stripped of brackets, keyed to the thread (or the channel). Anything else is
/// ignored.
pub fn handle_block_action(
    allowed_users: &Vec<String>,
    scoped_channel: Option<&str>,
    action: &BlockAction,
    now_secs: u64,
) -> (r: EnvelopeOutcome)
    ensures
        block_outcome(allowed_users@, opt_chars(scoped_channel), *action, now_secs, r),
{
    proof {
        reveal_strlit("edit_issue");
        reveal_strlit("confirm_issue");
        reveal_strlit("cancel_issue");
        reveal_strlit("[block_action:");
        reveal_strlit("] ");
        reveal_strlit("slack");
        reveal_strlit("slack_action_");
        assert("edit_issue"@.len() == 10 && "confirm_issue"@.len() == 13);
        assert("cancel_issue"@.len() == 12);
    }
    if !is_user_allowed(allowed_users, action.user.as_str()) {
        return EnvelopeOutcome::Nothing;
    }
    if let Some(scoped) = scoped_channel {
        if !str_eq(action.channel.as_str(), scoped) {
            return EnvelopeOutcome::Nothing;
        }
    }
    let id = action.action_id.as_str();
    if str_eq(id, "edit_issue") {
        if action.trigger_id.as_str().is_empty() {
            return EnvelopeOutcome::Nothing;
        }
        let meta = match &action.thread_ts {
            Some(ts) => join_with_colon(action.channel.as_str(), ts.as_str()),
            None => copy_str(action.channel.as_str()),
        };
        return EnvelopeOutcome::OpenModal {
            trigger_id: copy_str(action.trigger_id.as_str()),
            initial_title: copy_str(action.value.as_str()),
            private_metadata: meta,
        };
    }
    if !str_eq(id, "confirm_issue") && !str_eq(id, "cancel_issue") {
        return EnvelopeOutcome::Nothing;
    }
    let safe_value = remove_brackets(action.value.as_str());
    let mut content = String::new();
    push_str(&mut content, "[block_action:");
    push_str(&mut content, id);
    push_str(&mut content, "] ");
    push_str(&mut content, safe_value.as_str());
    assert(content@ =~= block_action_content(action.action_id@, action.value@));
    let suffix = match &action.thread_ts {
        Some(ts) => copy_str(ts.as_str()),
        None => copy_str(action.channel.as_str()),
    };
    let thread_key = join_with_colon(action.channel.as_str(), suffix.as_str());
    let mut msg_id = String::new();
    push_str(&mut msg_id, "slack_action_");
    push_str(&mut msg_id, action.channel.as_str());
    push_char(&mut msg_id, '_');
    push_str(&mut msg_id, suffix.as_str());
    let thread_ts = match &action.thread_ts {
        Some(ts) => Some(copy_str(ts.as_str())),
        None => None,
    };
    let message = ChannelMessage {
        id: msg_id,
        sender: copy_str(action.user.as_str()),
        reply_target: copy_str(action.channel.as_str()),
        content,
        channel: copy_str("slack"),
        timestamp: now_secs,
        thread_ts,
    };
    EnvelopeOutcome::Forward(
        Delivery { message, thread_key, timer_channel: copy_str(action.channel.as_str()), timer_ts: suffix },
    )
}

proof fn lemma_strip_brackets_clean(s: Seq<char>)
    ensures
        !strip_brackets(s).contains('['),
        !strip_brackets(s).contains(']'),
    decreases s.len(),
{
    if s.len() > 0 {
        lemma_strip_brackets_clean(s.drop_last());
        let p = strip_brackets(s.drop_last());
        if !(s.last() == '[' || s.last() == ']') {
            assert forall|i: int| 0 <= i < p.push(s.last()).len() implies p.push(s.last())[i] != '['
                && p.push(s.last())[i] != ']' by {
                if i < p.len() {
                    assert(p.push(s.last())[i] == p[i]);
                }
            }
        }
    }
}

/// A confirm or cancel message starts with `"[block_action:<id>] "`, and the part
/// taken from the button's value holds no `[` or `]`.
pub proof fn lemma_block_action_value_has_no_brackets(action_id: Seq<char>, value: Seq<char>)
    ensures
        block_action_content(action_id, value).take(action_id.len() + 16 as int) == "[block_action:"@
            + action_id + "] "@,
        !block_action_content(action_id, value).skip(action_id.len() + 16 as int).contains('['),
        !block_action_content(action_id, value).skip(action_id.len() + 16 as int).contains(']'),
{
    reveal_strlit("[block_action:");
    reveal_strlit("] ");
    let head = "[block_action:"@ + action_id + "] "@;
    assert(head.len() == action_id.len() + 16);
    assert(block_action_content(action_id, value).take(action_id.len() + 16 as int) =~= head);
    assert(block_action_content(action_id, value).skip(action_id.len() + 16 as int) =~= strip_brackets(value));
    lemma_strip_brackets_clean(value);
}

/// `s` with `&`, `<` and `>` written as HTML entities, so user text cannot form
/// Slack mentions or links.
pub open spec fn mrkdwn_escaped(s: Seq<char>) -> Seq<char>
    decreases s.len(),
{
    if s.len() == 0 {
        Seq::empty()
    } else {
        let c = s.last();
        mrkdwn_escaped(s.drop_last()) + if c == '&' {
            "&amp;"@
        } else if c == '<' {
            "&lt;"@
        } else if c == '>' {
            "&gt;"@
        } else {
            seq![c]
        }
    }
}

/// Escapes `&`, `<` and `>` in user-supplied text for Slack mrkdwn.
pub fn escape_mrkdwn(s: &str) -> (r: String)
    ensures
        r@ == mrkdwn_escaped(s@),
{
    proof {
        reveal_strlit("&amp;");
        reveal_strlit("&lt;");
        reveal_strlit("&gt;");
    }
    let cs = chars_of(s);
    let mut r = String::new();
    let mut i: usize = 0;
    while i < cs.len()
        invariant
            cs@ == s@,
            i <= cs.len(),
            r@ == mrkdwn_escaped(cs@.take(i as int)),
        decreases cs.len() - i,
    {
        assert(cs@.take(i + 1).drop_last() =~= cs@.take(i as int));
        let c = cs[i];
        if c == '&' {
            push_str(&mut r, "&amp;");
        } else if c == '<' {
            push_str(&mut r, "&lt;");
        } else if c == '>' {
            push_str(&mut r, "&gt;");
        } else {
            push_char(&mut r, c);
        }
        assert(r@ =~= mrkdwn_escaped(cs@.take(i + 1)));
        i = i + 1;
    }
    assert(cs@.take(cs@.len() as int) =~= cs@);
    r
}

/// The summary text of an issue draft.
pub open spec fn draft_summary_text(title: Seq<char>, description: Seq<char>) -> Seq<char> {
    "*Draft Issue*\n*Title:* "@ + mrkdwn_escaped(title) + "\n*Description:* "@ + mrkdwn_escaped(
        description,
    )
}

/// Builds the mrkdwn summary of an issue draft, title and description escaped.
pub fn draft_summary(title: &str, description: &str) -> (r: String)
    ensures
        r@ == draft_summary_text(title@, description@),
{
    proof {
        reveal_strlit("*Draft Issue*\n*Title:* ");
        reveal_strlit("\n*Description:* ");
    }
    let t = escape_mrkdwn(title);
    let d = escape_mrkdwn(description);
    let mut r = String::new();
    push_str(&mut r, "*Draft Issue*\n*Title:* ");
    push_str(&mut r, t.as_str());
    push_str(&mut r, "\n*Description:* ");
    push_str(&mut r, d.as_str());
    assert(r@ =~= draft_summary_text(title@, description@));
    r
}

/// `s` with every `|` written as `%7C`.
pub open spec fn pipe_encoded(s: Seq<char>) -> Seq<char>
    decreases s.len(),
{
    if s.len() == 0 {
        Seq::empty()
    } else {
        pipe_encoded(s.drop_last()) + if s.last() == '|' {
            "%7C"@
        } else {
            seq![s.last()]
        }
    }
}

/// The confirmation text for a created issue: a link whose URL has `|`
/// percent-encoded (so it cannot end the URL early) and whose title is escaped.
pub open spec fn confirmation_text(title: Seq<char>, url: Seq<char>) -> Seq<char> {
    ":white_check_mark: *Issue created:* <"@ + pipe_encoded(url) + seq!['|'] + mrkdwn_escaped(title)
        + seq!['>']
}

/// Builds the mrkdwn confirmation for a created issue. The URL is not
/// entity-escaped, which would break its query string.
pub fn issue_confirmation_text(title: &str, url: &str) -> (r: String)
    ensures
        r@ == confirmation_text(title@, url@),
{
    proof {
        reveal_strlit(":white_check_mark: *Issue created:* <");
        reveal_strlit("%7C");
    }
    let t = escape_mrkdwn(title);
    let cs = chars_of(url);
    let mut r = String::new();
    push_str(&mut r, ":white_check_mark: *Issue created:* <");
    let ghost head = r@;
    let mut i: usize = 0;
    while i < cs.len()
        invariant
            cs@ == url@,
            i <= cs.len(),
            r@ == head + pipe_encoded(cs@.take(i as int)),
        decreases cs.len() - i,
    {
        assert(cs@.take(i + 1).drop_last() =~= cs@.take(i as int));
        if cs[i] == '|' {
            push_str(&mut r, "%7C");
        } else {
            push_char(&mut r, cs[i]);
        }
        assert(r@ =~= head + pipe_encoded(cs@.take(i + 1)));
        i = i + 1;
    }
    assert(cs@.take(cs@.len() as int) =~= cs@);
    push_char(&mut r, '|');
    push_str(&mut r, t.as_str());
    push_char(&mut r, '>');
    assert(r@ =~= confirmation_text(title@, url@));
    r
}

/// The fields of a `view_submission` payload that the bot reads.
pub struct ViewSubmission {
    /// `user.id`, empty when absent.
    pub user: String,
    /// `view.callback_id`, `"unknown"` when absent.
    pub callback_id: String,
    /// `view.private_metadata`: `"<channel>:<thread>"` or `"<channel>"`.
    pub private_metadata: String,
    /// The submitted title, empty when absent.
    pub title: String,
    /// The submitted description, empty when absent.
    pub description: String,
}

/// The channel named by a modal's private metadata: up to its first `:`.
pub open spec fn metadata_channel(meta: Seq<char>) -> Seq<char> {
    before_char(meta, ':')
}

/// The thread named by a modal's private metadata: after its first `:`, if any.
pub open spec fn metadata_thread(meta: Seq<char>) -> Option<Seq<char>> {
    let i = first_where(meta.len() as int, at_char(meta, ':'));
    if i < meta.len() {
        Some(meta.skip(i + 1))
    } else {
        None
    }
}

/// The content of the synthetic message for a modal submission.
pub open spec fn view_submission_content(
    callback_id: Seq<char>,
    title: Seq<char>,
    description: Seq<char>,
) -> Seq<char> {
    "[view_submission:"@ + callback_id + "] title="@ + title + " description="@ + description
}

/// What a modal submission leads to: a message from an allowed user naming a
/// channel (in scope, if scoped), in the thread the private metadata names.
pub open spec fn view_outcome(
    allowed: Seq<String>,
    scoped: Option<Seq<char>>,
    vs: ViewSubmission,
    now_secs: u64,
    r: Option<Delivery>,
) -> bool {
    let ch = metadata_channel(vs.private_metadata@);
    let suffix = match metadata_thread(vs.private_metadata@) {
        Some(t) => t,
        None => ch,
    };
    &&& (r is Some <==> (vs.user@.len() > 0 && authorized(allowed, vs.user@) && ch.len() > 0
        && in_scope(scoped, ch)))
    &&& (r matches Some(d) ==> {
        &&& d.message.content@ == view_submission_content(vs.callback_id@, vs.title@, vs.description@)
        &&& d.message.sender@ == vs.user@
        &&& d.message.reply_target@ == ch
        &&& d.message.channel@ == "slack"@
        &&& d.message.timestamp == now_secs
        &&& opt_string_chars(d.message.thread_ts) == metadata_thread(vs.private_metadata@)
        &&& d.thread_key@ == colon_join(ch, suffix)
        &&& d.timer_channel@ == ch
        &&& d.timer_ts@ == suffix
    })
}

/// Decides what to do with a modal submission: from an allowed user, naming a
/// channel (in scope, if scoped), it becomes the message
/// `"[view_submission:<callback>] title=<t> description=<d>"` in the thread the
/// private metadata names; otherwise it is dropped.
pub fn handle_view_submission(
    allowed_users: &Vec<String>,
    scoped_channel: Option<&str>,
    vs: &ViewSubmission,
    now_secs: u64,
) -> (r: Option<Delivery>)
    ensures
        view_outcome(allowed_users@, opt_chars(scoped_channel), *vs, now_secs, r),
{
    proof {
        reveal_strlit("[view_submission:");
        reveal_strlit("] title=");
        reveal_strlit(" description=");
        reveal_strlit("slack");
        reveal_strlit("slack_view_");
    }
    if vs.user.as_str().is_empty() || !is_user_allowed(allowed_users, vs.user.as_str()) {
        return None;
    }
    let meta = chars_of(vs.private_metadata.as_str());
    let ch_chars = prefix_of(&meta, ':');
    let channel = string_of(&ch_chars, 0, ch_chars.len());
    assert(ch_chars@.subrange(0, ch_chars@.len() as int) =~= ch_chars@);
    if channel.as_str().is_empty() {
        return None;
    }
    if let Some(scoped) = scoped_channel {
        if !str_eq(channel.as_str(), scoped) {
            return None;
        }
    }
    let colon = ch_chars.len();
    proof {
        lemma_first_where_holds_at(meta@, ':');
    }
    let thread_ts = if colon < meta.len() {
        Some(string_of(&meta, colon + 1, meta.len()))
    } else {
        None
    };
    proof {
        if colon < meta.len() {
            assert(meta@.subrange(colon + 1, meta@.len() as int) =~= meta@.skip(colon + 1));
        }
    }
    let suffix = match &thread_ts {
        Some(t) => copy_str(t.as_str()),
        None => copy_str(channel.as_str()),
    };
    let mut content = String::new();
    push_str(&mut content, "[view_submission:");
    push_str(&mut content, vs.callback_id.as_str());
    push_str(&mut content, "] title=");
    push_str(&mut content, vs.title.as_str());
    push_str(&mut content, " description=");
    push_str(&mut content, vs.description.as_str());
    assert(content@ =~= view_submission_content(vs.callback_id@, vs.title@, vs.description@));
    let thread_key = join_with_colon(channel.as_str(), suffix.as_str());
    let mut msg_id = String::new();
    push_str(&mut msg_id, "slack_view_");
    push_str(&mut msg_id, channel.as_str());
    push_char(&mut msg_id, '_');
    push_str(&mut msg_id, suffix.as_str());
    let message = ChannelMessage {
        id: msg_id,
        sender: copy_str(vs.user.as_str()),
        reply_target: copy_str(channel.as_str()),
        content,
        channel: copy_str("slack"),
        timestamp: now_secs,
        thread_ts,
    };
    Some(Delivery { message, thread_key, timer_channel: channel, timer_ts: suffix })
}

proof fn lemma_first_where_holds_at(s: Seq<char>, c: char)
    ensures
        0 <= first_where(s.len() as int, at_char(s, c)) <= s.len(),
        first_where(s.len() as int, at_char(s, c)) < s.len() ==> s[first_where(
            s.len() as int,
            at_char(s, c),
        )] == c,
{
    lemma_first_where_bound(s.len() as int, at_char(s, c));
    if first_where(s.len() as int, at_char(s, c)) < s.len() {
        lemma_first_where_holds(s.len() as int, at_char(s, c));
    }
}

/// The thread of a polled message: its `thread_ts`, else its own `ts` unless empty.
pub fn thread_root(thread_ts: Option<String>, ts: &str) -> (r: Option<String>)
    ensures
        thread_ts is Some ==> opt_string_chars(r) == opt_string_chars(thread_ts),
        thread_ts is None && ts@.len() > 0 ==> opt_string_chars(r) == Some(ts@),
        thread_ts is None && ts@.len() == 0 ==> r is None,
{
    match thread_ts {
        Some(t) => Some(t),
        None => if ts.is_empty() {
            None
        } else {
            Some(copy_str(ts))
        },
    }
}

/// Whether a polled message's `ts` is past the channel's watermark: greater than
/// `last_ts` in byte order, as `str` comparison orders them.
pub fn is_newer_ts(ts: &str, last_ts: &str) -> (r: bool)
    ensures
        r == !bytes_le(ts.spec_bytes(), last_ts.spec_bytes()),
{
    let a = ts.as_bytes();
    let b = last_ts.as_bytes();
    let mut i: usize = 0;
    proof {
        assert(a@.skip(0) =~= a@);
        assert(b@.skip(0) =~= b@);
    }
    while i < a.len() && i < b.len() && a[i] == b[i]
        invariant
            a@ == ts.spec_bytes(),
            b@ == last_ts.spec_bytes(),
            i <= a.len(),
            i <= b.len(),
            forall|j: int| 0 <= j < i ==> a@[j] == b@[j],
            bytes_le(a@.skip(i as int), b@.skip(i as int)) == bytes_le(a@, b@),
        decreases a.len() - i,
    {
        proof {
            let x = a@.skip(i as int);
            let y = b@.skip(i as int);
            assert(x.skip(1) =~= a@.skip(i + 1));
            assert(y.skip(1) =~= b@.skip(i + 1));
        }
        i = i + 1;
    }
    if i == a.len() {
        assert(a@.skip(i as int).len() == 0);
        false
    } else if i == b.len() {
        true
    } else {
        a[i] > b[i]
    }
}

/// The thread of a polled message (`thread_ts`, else `ts`).
pub fn inbound_thread_ts(msg: &serde_json::Value, ts: &str) -> Option<String> {
    thread_root(str_at(msg, "/thread_ts"), ts)
}

/// Reads the event of an `events_api` payload; `None` when it has no `event`.
pub fn event_from_payload(payload: &serde_json::Value) -> Option<SlackEvent> {
    if !has_at(payload, "/event") {
        return None;
    }
    Some(
        SlackEvent {
            event_type: str_at_or(payload, "/event/type", "/event/type", ""),
            has_subtype: has_at(payload, "/event/subtype"),
            has_bot_id: has_at(payload, "/event/bot_id"),
            user: str_at_or(payload, "/event/user", "/event/user", ""),
            text: str_at_or(payload, "/event/text", "/event/text", ""),
            channel: str_at_or(payload, "/event/channel", "/event/channel", ""),
            ts: str_at_or(payload, "/event/ts", "/event/ts", ""),
            thread_ts: str_at(payload, "/event/thread_ts"),
        },
    )
}

fn non_empty(s: Option<String>) -> (r: Option<String>)
    ensures
        r matches Some(x) ==> x@.len() > 0,
{
    match s {
        Some(x) => if x.as_str().is_empty() {
            None
        } else {
            Some(x)
        },
        None => None,
    }
}

/// Reads a `block_actions` payload; `None` when the user, the channel or the
/// first action's id is missing or empty.
pub fn parse_block_action_context(payload: &serde_json::Value) -> (r: Option<BlockAction>)
    ensures
        r matches Some(a) ==> a.user@.len() > 0 && a.channel@.len() > 0 && a.action_id@.len() > 0,
{
    let user = non_empty(str_at(payload, "/user/id"))?;
    let channel = non_empty(str_at(payload, "/channel/id"))?;
    let thread_ts = if has_at(payload, "/message/thread_ts") {
        non_empty(str_at(payload, "/message/thread_ts"))
    } else {
        non_empty(str_at(payload, "/message/ts"))
    };
    let actions = array_at(payload, "/actions");
    if actions.len() == 0 {
        return None;
    }
    let first = actions[0];
    let action_id = non_empty(str_at(first, "/action_id"))?;
    let value = str_at_or(first, "/value", "/value", "");
    let trigger_id = str_at_or(payload, "/trigger_id", "/trigger_id", "");
    Some(BlockAction { user, channel, thread_ts, action_id, value, trigger_id })
}

/// Reads a `view_submission` payload; `None` when it has no `view`.
pub fn view_submission_from_payload(payload: &serde_json::Value) -> Option<ViewSubmission> {
    if !has_at(payload, "/view") {
        return None;
    }
    Some(
        ViewSubmission {
            user: str_at_or(payload, "/user/id", "/user/id", ""),
            callback_id: str_at_or(payload, "/view/callback_id", "/view/callback_id", "unknown"),
            private_metadata: str_at_or(
                payload,
                "/view/private_metadata",
                "/view/private_metadata",
                "",
            ),
            title: str_at_or(
                payload,
                "/view/state/values/title_block/title_input/value",
                "/view/state/values/title_block/title_input/value",
                "",
            ),
            description: str_at_or(
                payload,
                "/view/state/values/description_block/description_input/value",
                "/view/state/values/description_block/description_input/value",
                "",
            ),
        },
    )
}

/// What a Socket Mode text frame is.
#[derive(Debug, Clone, Copy, PartialEq, Eq, Structural)]
pub enum FrameKind {
    /// `hello`: informational.
    Hello,
    /// `disconnect`: the server asks for a reconnect.
    Disconnect,
    /// Anything else: an envelope to acknowledge and dispatch.
    Envelope,
}

/// Classifies a text frame by its `type`.
pub fn classify_frame(frame_type: &str) -> (r: FrameKind)
    ensures
        r == (if frame_type@ == "hello"@ {
            FrameKind::Hello
        } else if frame_type@ == "disconnect"@ {
            FrameKind::Disconnect
        } else {
            FrameKind::Envelope
        }),
{
    if str_eq(frame_type, "hello") {
        FrameKind::Hello
    } else if str_eq(frame_type, "disconnect") {
        FrameKind::Disconnect
    } else {
        FrameKind::Envelope
    }
}

/// Which handler an envelope goes to.
#[derive(Debug, Clone, Copy, PartialEq, Eq, Structural)]
pub enum EnvelopeKind {
    /// `events_api`: a message or mention.
    Event,
    /// `interactive` with `block_actions`: a button press.
    BlockActions,
    /// `interactive` with `view_submission`: a modal submitted.
    ViewSubmission,
    /// Anything else (slash commands, unknown types): acknowledged and ignored.
    Ignored,
}

/// Routes an envelope by its `type` and, for `interactive`, its payload `type`.
pub fn classify_envelope(envelope_type: &str, payload_type: &str) -> (r: EnvelopeKind)
    ensures
        r == (if envelope_type@ == "events_api"@ {
            EnvelopeKind::Event
        } else if envelope_type@ == "interactive"@ && payload_type@ == "block_actions"@ {
            EnvelopeKind::BlockActions
        } else if envelope_type@ == "interactive"@ && payload_type@ == "view_submission"@ {
            EnvelopeKind::ViewSubmission
        } else {
            EnvelopeKind::Ignored
        }),
{
    if str_eq(envelope_type, "events_api") {
        EnvelopeKind::Event
    } else if str_eq(envelope_type, "interactive") {
        if str_eq(payload_type, "block_actions") {
            EnvelopeKind::BlockActions
        } else if str_eq(payload_type, "view_submission") {
            EnvelopeKind::ViewSubmission
        } else {
            EnvelopeKind::Ignored
        }
    } else {
        EnvelopeKind::Ignored
    }
}

/// A Socket Mode envelope's payload, read into the library's types.
pub enum Envelope {
    /// `events_api`.
    Event(SlackEvent),
    /// `interactive` with `block_actions`.
    BlockActions(BlockAction),
    /// `interactive` with `view_submission`.
    ViewSubmission(ViewSubmission),
    /// Anything else, or a payload missing what its type needs.
    Other,
}

/// Reads an envelope's payload by the envelope's `type` and the payload's `type`.
pub fn envelope_from_payload(envelope_type: &str, payload: &serde_json::Value) -> (r: Envelope)
    ensures
        !(envelope_type@ == "events_api"@ || envelope_type@ == "interactive"@) ==> r is Other,
{
    let payload_type = str_at_or(payload, "/type", "/type", "");
    match classify_envelope(envelope_type, payload_type.as_str()) {
        EnvelopeKind::Event => match event_from_payload(payload) {
            Some(ev) => Envelope::Event(ev),
            None => Envelope::Other,
        },
        EnvelopeKind::BlockActions => match parse_block_action_context(payload) {
            Some(a) => Envelope::BlockActions(a),
            None => Envelope::Other,
        },
        EnvelopeKind::ViewSubmission => match view_submission_from_payload(payload) {
            Some(vs) => Envelope::ViewSubmission(vs),
            None => Envelope::Other,
        },
        EnvelopeKind::Ignored => Envelope::Other,
    }
}

/// The delivery an outcome hands on, if any.
pub open spec fn forwarded(r: EnvelopeOutcome) -> Option<Delivery> {
    match r {
        EnvelopeOutcome::Forward(d) => Some(d),
        _ => None,
    }
}

/// What an envelope asks of the adapter.
pub enum EnvelopeOutcome {
    /// Nothing to do.
    Nothing,
    /// Hand a message to the agent and reset its thread's timer.
    Forward(Delivery),
    /// Open the issue edit modal.
    OpenModal { trigger_id: String, initial_title: String, private_metadata: String },
}

/// A Slack adapter's configuration and wake/sleep state.
pub struct SlackChannel {
    bot_token: String,
    app_token: Option<String>,
    channel_id: Option<String>,
    allowed_users: Vec<String>,
    wake_sleep: WakeSleepEngine,
}

impl SlackChannel {
    /// The adapter's invariant: its wake/sleep engine is well formed.
    pub closed spec fn wf(&self) -> bool {
        self.wake_sleep.wf()
    }

    /// Users allowed to talk to the bot.
    pub closed spec fn allowed(&self) -> Seq<String> {
        self.allowed_users@
    }

    /// The configured channel id, as given.
    pub closed spec fn configured(&self) -> Option<Seq<char>> {
        opt_string_chars(self.channel_id)
    }

    /// Whether an app-level token is configured.
    pub closed spec fn has_app_token(&self) -> bool {
        self.app_token is Some
    }

    /// The wake/sleep state of the threads.
    pub closed spec fn threads(&self) -> Map<Seq<char>, bool> {
        self.wake_sleep@
    }

    /// Builds an adapter with no thread tracked yet.
    pub fn new(
        bot_token: String,
        app_token: Option<String>,
        channel_id: Option<String>,
        allowed_users: Vec<String>,
    ) -> (r: Self)
        ensures
            r.wf(),
            r.allowed() == allowed_users@,
            r.configured() == opt_string_chars(channel_id),
            r.threads() == Map::<Seq<char>, bool>::empty(),
            r.has_app_token() == app_token is Some,
    {
        SlackChannel { bot_token, app_token, channel_id, allowed_users, wake_sleep: WakeSleepEngine::new() }
    }

    /// The bot token.
    pub fn bot_token(&self) -> &str {
        self.bot_token.as_str()
    }

    /// The users allowed to talk to the bot.
    pub fn allowed_users(&self) -> (r: &Vec<String>)
        ensures
            r@ == self.allowed(),
    {
        &self.allowed_users
    }

    /// The app-level token, when Socket Mode is configured.
    pub fn app_token(&self) -> (r: Option<&str>)
        ensures
            r is Some == self.has_app_token(),
    {
        match &self.app_token {
            Some(t) => Some(t.as_str()),
            None => None,
        }
    }

    /// Whether Socket Mode is configured (else the adapter polls).
    pub fn uses_socket_mode(&self) -> (r: bool)
        ensures
            r == self.has_app_token(),
    {
        self.app_token.is_some()
    }

    /// Whether `user_id` is on the allowlist (`"*"` allows everyone).
    pub fn is_user_allowed(&self, user_id: &str) -> (r: bool)
        ensures
            r == authorized(self.allowed(), user_id@),
    {
        is_user_allowed(&self.allowed_users, user_id)
    }

    /// The channel the adapter is limited to, if any.
    pub fn configured_channel_id(&self) -> (r: Option<String>)
        ensures
            r matches Some(s) ==> scope_of(self.configured()) == Some(s@),
            r is None ==> scope_of(self.configured()) is None,
    {
        match &self.channel_id {
            Some(c) => normalized_channel_id(Some(c.as_str())),
            None => normalized_channel_id(None),
        }
    }

    /// Decides on an `events_api` event as `dispatch_event` does, with this
    /// adapter's allowlist, scope and wake/sleep state.
    pub fn handle_event(&mut self, ev: &SlackEvent, bot_user_id: &str, now_secs: u64) -> (r: Option<Delivery>)
        requires
            old(self).wf(),
        ensures
            final(self).wf(),
            final(self).allowed() == old(self).allowed(),
            final(self).configured() == old(self).configured(),
            event_outcome(
                old(self).threads(),
                final(self).threads(),
                old(self).allowed(),
                scope_of(old(self).configured()),
                *ev,
                bot_user_id@,
                now_secs,
                r,
            ),
    {
        let scoped = self.configured_channel_id();
        let scope_ref: Option<&str> = match &scoped {
            Some(s) => Some(s.as_str()),
            None => None,
        };
        dispatch_event(&mut self.wake_sleep, &self.allowed_users, scope_ref, ev, bot_user_id, now_secs)
    }

    /// Routes an envelope: events go through `handle_event`, block actions
    /// through `handle_block_action`, modal submissions through
    /// `handle_view_submission`, with this adapter's allowlist and scope; other
    /// envelopes do nothing.
    pub fn dispatch_envelope(&mut self, envelope: &Envelope, bot_user_id: &str, now_secs: u64) -> (r:
        EnvelopeOutcome)
        requires
            old(self).wf(),
        ensures
            final(self).wf(),
            final(self).allowed() == old(self).allowed(),
            final(self).configured() == old(self).configured(),
            match *envelope {
                Envelope::Event(ev) => !(r is OpenModal) && event_outcome(
                    old(self).threads(),
                    final(self).threads(),
                    old(self).allowed(),
                    scope_of(old(self).configured()),
                    ev,
                    bot_user_id@,
                    now_secs,
                    forwarded(r),
                ),
                Envelope::BlockActions(a) => final(self).threads() == old(self).threads()
                    && block_outcome(old(self).allowed(), scope_of(old(self).configured()), a, now_secs, r),
                Envelope::ViewSubmission(vs) => final(self).threads() == old(self).threads() && !(r is OpenModal)
                    && view_outcome(old(self).allowed(), scope_of(old(self).configured()), vs, now_secs, forwarded(r)),
                Envelope::Other => final(self).threads() == old(self).threads() && r is Nothing,
            },
    {
        let scoped = self.configured_channel_id();
        let scope_ref: Option<&str> = match &scoped {
            Some(c) => Some(c.as_str()),
            None => None,
        };
        match envelope {
            Envelope::Event(ev) => match self.handle_event(ev, bot_user_id, now_secs) {
                Some(d) => EnvelopeOutcome::Forward(d),
                None => EnvelopeOutcome::Nothing,
            },
            Envelope::BlockActions(action) => handle_block_action(&self.allowed_users, scope_ref, action, now_secs),
            Envelope::ViewSubmission(vs) => match handle_view_submission(&self.allowed_users, scope_ref, vs, now_secs) {
                Some(d) => EnvelopeOutcome::Forward(d),
                None => EnvelopeOutcome::Nothing,
            },
            Envelope::Other => EnvelopeOutcome::Nothing,
        }
    }

    /// Puts a thread to sleep when its inactivity timer fires.
    pub fn mark_sleeping(&mut self, thread_key: &str)
        requires
            old(self).wf(),
        ensures
            final(self).wf(),
            final(self).allowed() == old(self).allowed(),
            final(self).configured() == old(self).configured(),
            final(self).threads() == crate::wake_sleep::sleep(old(self).threads(), thread_key@),
    {
        self.wake_sleep.mark_sleeping(thread_key)
    }

    /// Whether a thread is awake (an untracked thread counts as awake).
    pub fn is_awake(&self, thread_key: &str) -> (r: bool)
        requires
            self.wf(),
        ensures
            r == crate::wake_sleep::awake_in(self.threads(), thread_key@),
    {
        self.wake_sleep.is_awake(thread_key)
    }
}

/// Most `conversations.list` pages read when discovering channels.
pub const MAX_PAGES: usize = 50;

/// A channel of a `conversations.list` page.
pub struct ChannelEntry {
    /// Its id.
    pub id: String,
    /// `is_archived`, false when absent.
    pub is_archived: bool,
    /// `is_member`, true when absent.
    pub is_member: bool,
}

/// The ids of the channels the bot can read: member, not archived.
pub open spec fn readable_ids(entries: Seq<ChannelEntry>) -> Set<Seq<char>> {
    Set::new(|id: Seq<char>| exists|i: int|
        0 <= i < entries.len() && (#[trigger] entries[i]).id@ == id && !entries[i].is_archived
            && entries[i].is_member)
}

/// The readable channel ids, sorted by their bytes, each once.
pub fn select_channels(entries: &Vec<ChannelEntry>) -> (r: Vec<String>)
    ensures
        views(r@).to_set() == readable_ids(entries@),
        views(r@).no_duplicates(),
        forall|i: int, j: int|
            0 <= i < j < r@.len() ==> bytes_le(
                encode_utf8(#[trigger] r@[i]@),
                encode_utf8(#[trigger] r@[j]@),
            ),
{
    let mut ids: Vec<String> = Vec::new();
    let mut k: usize = 0;
    while k < entries.len()
        invariant
            k <= entries@.len(),
            forall|x: Seq<char>| #[trigger] views(ids@).contains(x) <==> exists|i: int|
                0 <= i < k && (#[trigger] entries@[i]).id@ == x && !entries@[i].is_archived
                    && entries@[i].is_member,
        decreases entries.len() - k,
    {
        let e = &entries[k];
        let ghost before = ids@;
        if !e.is_archived && e.is_member {
            ids.push(copy_str(e.id.as_str()));
            proof {
                assert(views(ids@) =~= views(before).push(entries@[k as int].id@));
                assert forall|x: Seq<char>| #[trigger] views(ids@).contains(x) <==> exists|i: int|
                    0 <= i < k + 1 && (#[trigger] entries@[i]).id@ == x && !entries@[i].is_archived
                        && entries@[i].is_member by {
                    if x == entries@[k as int].id@ {
                        assert(views(ids@)[views(before).len() as int] == x);
                        assert(0 <= k < k + 1 && entries@[k as int].id@ == x);
                    }
                    if views(ids@).contains(x) && x != entries@[k as int].id@ {
                        let j = choose|j: int| 0 <= j < views(ids@).len() && views(ids@)[j] == x;
                        assert(j < views(before).len());
                        assert(views(before)[j] == x);
                        assert(views(before).contains(x));
                    }
                    if exists|i: int|
                        0 <= i < k + 1 && (#[trigger] entries@[i]).id@ == x && !entries@[i].is_archived
                            && entries@[i].is_member {
                        let i = choose|i: int|
                            0 <= i < k + 1 && (#[trigger] entries@[i]).id@ == x && !entries@[i].is_archived
                                && entries@[i].is_member;
                        if i < k {
                            assert(views(before).contains(x));
                            let j = choose|j: int| 0 <= j < views(before).len() && views(before)[j] == x;
                            assert(views(ids@)[j] == x);
                        } else {
                            assert(views(ids@)[views(before).len() as int] == x);
                        }
                    }
                }
            }
        } else {
            proof {
                assert forall|x: Seq<char>| #[trigger] views(ids@).contains(x) <==> exists|i: int|
                    0 <= i < k + 1 && (#[trigger] entries@[i]).id@ == x && !entries@[i].is_archived
                        && entries@[i].is_member by {
                    if exists|i: int|
                        0 <= i < k + 1 && (#[trigger] entries@[i]).id@ == x && !entries@[i].is_archived
                            && entries@[i].is_member {
                        let i = choose|i: int|
                            0 <= i < k + 1 && (#[trigger] entries@[i]).id@ == x && !entries@[i].is_archived
                                && entries@[i].is_member;
                        assert(i < k);
                    }
                }
            }
        }
        k = k + 1;
    }
    let ghost unsorted = views(ids@);
    sort_strings(&mut ids);
    let r = dedup_in_order(&ids);
    proof {
        crate::text::lemma_same_multiset_same_set(views(ids@), unsorted);
        assert forall|x: Seq<char>| #[trigger] views(r@).to_set().contains(x) == readable_ids(entries@).contains(x) by {
            assert(unsorted.to_set().contains(x) == unsorted.contains(x));
        }
        assert(views(r@).to_set() =~= readable_ids(entries@));
    }
    r
}

/// Reads the channels of a `conversations.list` page; entries without an id are
/// skipped.
pub fn channel_entries(page: &serde_json::Value) -> Vec<ChannelEntry> {
    let items = array_at(page, "/channels");
    let mut r: Vec<ChannelEntry> = Vec::new();
    let mut i: usize = 0;
    while i < items.len()
        decreases items.len() - i,
    {
        let c = items[i];
        if let Some(id) = str_at(c, "/id") {
            let is_archived = match bool_at(c, "/is_archived") {
                Some(b) => b,
                None => false,
            };
            let is_member = match bool_at(c, "/is_member") {
                Some(b) => b,
                None => true,
            };
            r.push(ChannelEntry { id, is_archived, is_member });
        }
        i = i + 1;
    }
    r
}

/// The readable channel ids of a `conversations.list` page, sorted, each once.
pub fn extract_channel_ids(page: &serde_json::Value) -> Vec<String> {
    select_channels(&channel_entries(page))
}

/// The cursor of the next page: `response_metadata.next_cursor`, trimmed,
/// unless blank.
pub fn next_cursor(page: &serde_json::Value) -> Option<String> {
    match str_at(page, "/response_metadata/next_cursor") {
        Some(c) => normalized_channel_cursor(c.as_str()),
        None => None,
    }
}

/// `c` trimmed, or `None` when blank.
pub fn normalized_channel_cursor(c: &str) -> (r: Option<String>)
    ensures
        r matches Some(s) ==> s@ == trim(c@) && s@.len() > 0,
        r is None <==> trim(c@).len() == 0,
{
    let cs = chars_of(c);
    let (lo, hi) = trim_bounds(&cs);
    if lo == hi {
        None
    } else {
        Some(string_of(&cs, lo, hi))
    }
}

/// Whether channel discovery reads another page after `pages_read` pages.
pub fn read_another_page(pages_read: usize, has_cursor: bool) -> (r: bool)
    ensures
        r == (has_cursor && pages_read < MAX_PAGES),
{
    has_cursor && pages_read < MAX_PAGES
}

} // verus!

//! Mattermost: which posts reach the agent, with what content and reply target.
use vstd::prelude::*;
use vstd::utf8::encode_utf8;
use crate::text::{
    bytes_le, chars_of, dedup_in_order, lemma_same_multiset_same_set, push_str, sort_strings, str_eq,
    string_of, trim, trim_bounds, views,
};
use crate::channel::{ChannelMessage, colon_join, copy_str, join_with_colon, opt_string_chars};
use crate::mention::{contains_bot_mention, mentions_bot, normalize_content, normalized};
use crate::activity::{ThreadActivity, active_in, evict};
use crate::slack::{authorized, in_scope, is_user_allowed};
use crate::json::{has_at, i64_at, parse_json, str_at, str_at_or, strings_at};

verus! {

/// The trimmed ids, in order, without the empty ones.
pub open spec fn trimmed_ids(s: Seq<String>) -> Seq<Seq<char>>
    decreases s.len(),
{
    if s.len() == 0 {
        Seq::empty()
    } else if trim(s.last()@).len() > 0 {
        trimmed_ids(s.drop_last()).push(trim(s.last()@))
    } else {
        trimmed_ids(s.drop_last())
    }
}

fn trim_all(ids: &Vec<String>) -> (r: Vec<String>)
    ensures
        views(r@) == trimmed_ids(ids@),
{
    let mut r: Vec<String> = Vec::new();
    let mut k: usize = 0;
    while k < ids.len()
        invariant
            k <= ids@.len(),
            views(r@) == trimmed_ids(ids@.take(k as int)),
        decreases ids.len() - k,
    {
        assert(ids@.take(k + 1).drop_last() =~= ids@.take(k as int));
        let cs = chars_of(ids[k].as_str());
        let (lo, hi) = trim_bounds(&cs);
        if lo < hi {
            r.push(string_of(&cs, lo, hi));
        }
        assert(views(r@) =~= trimmed_ids(ids@.take(k + 1)));
        k = k + 1;
    }
    assert(ids@.take(ids@.len() as int) =~= ids@);
    r
}

/// Trims sender ids, drops the empty ones, sorts them by their bytes and removes
/// duplicates.
pub fn normalize_group_reply_allowed_sender_ids(sender_ids: Vec<String>) -> (r: Vec<String>)
    ensures
        views(r@).to_set() == trimmed_ids(sender_ids@).to_set(),
        views(r@).no_duplicates(),
        forall|i: int, j: int|
            0 <= i < j < r@.len() ==> bytes_le(
                encode_utf8(#[trigger] r@[i]@),
                encode_utf8(#[trigger] r@[j]@),
            ),
{
    let mut trimmed = trim_all(&sender_ids);
    let ghost unsorted = trimmed@;
    sort_strings(&mut trimmed);
    proof {
        lemma_same_multiset_same_set(views(trimmed@), views(unsorted));
    }
    let r = dedup_in_order(&trimmed);
    r
}

/// The fields of a Mattermost post that the bot reads.
pub struct MattermostPost {
    /// `id`, empty when absent.
    pub id: String,
    /// `user_id`, empty when absent.
    pub user_id: String,
    /// `message`, empty when absent.
    pub message: String,
    /// `create_at` in milliseconds, zero when absent.
    pub create_at: i64,
    /// `root_id`, empty for a top-level post.
    pub root_id: String,
    /// The user ids of `metadata.mentions`.
    pub metadata_mentions: Vec<String>,
}

/// `s` without trailing `/`.
pub open spec fn strip_trailing_slashes(s: Seq<char>) -> Seq<char>
    decreases s.len(),
{
    if s.len() > 0 && s.last() == '/' {
        strip_trailing_slashes(s.drop_last())
    } else {
        s
    }
}

/// A Mattermost adapter's configuration and thread-activity state.
pub struct MattermostChannel {
    base_url: String,
    bot_token: String,
    channel_id: Option<String>,
    allowed_users: Vec<String>,
    thread_replies: bool,
    mention_only: bool,
    thread_state: ThreadActivity,
    group_reply_allowed_sender_ids: Vec<String>,
    aieos_path: Option<String>,
    sync_profile: bool,
    admin_token: Option<String>,
}

impl MattermostChannel {
    /// The adapter's invariant: its activity tracker is well formed.
    pub closed spec fn wf(&self) -> bool {
        self.thread_state.wf()
    }

    /// The REST base URL, without trailing `/`.
    pub closed spec fn base_url_spec(&self) -> Seq<char> {
        self.base_url@
    }

    /// Users allowed to talk to the bot.
    pub closed spec fn allowed(&self) -> Seq<String> {
        self.allowed_users@
    }

    /// The bot token.
    pub closed spec fn bot_token_spec(&self) -> Seq<char> {
        self.bot_token@
    }

    /// The admin token, if any.
    pub closed spec fn admin_token_spec(&self) -> Option<Seq<char>> {
        opt_string_chars(self.admin_token)
    }

    /// Senders that bypass mention gating.
    pub closed spec fn group_senders(&self) -> Seq<String> {
        self.group_reply_allowed_sender_ids@
    }

    /// Whether top-level posts are answered in a new thread.
    pub closed spec fn threads_replies(&self) -> bool {
        self.thread_replies
    }

    /// Whether only posts that mention the bot (or continue an active thread) are read.
    pub closed spec fn mention_gated(&self) -> bool {
        self.mention_only
    }

    /// The last touch of each active thread.
    pub closed spec fn activity(&self) -> Map<Seq<char>, u64> {
        self.thread_state@
    }

    /// The activity window, in milliseconds.
    pub closed spec fn activity_ttl(&self) -> u64 {
        self.thread_state.ttl()
    }

    /// Builds an adapter; trailing `/` are dropped from `base_url`.
    pub fn new(
        base_url: String,
        bot_token: String,
        channel_id: Option<String>,
        allowed_users: Vec<String>,
        thread_replies: bool,
        mention_only: bool,
        thread_ttl_minutes: u32,
        aieos_path: Option<String>,
        sync_profile: bool,
        admin_token: Option<String>,
    ) -> (r: Self)
        ensures
            r.wf(),
            r.base_url_spec() == strip_trailing_slashes(base_url@),
            r.allowed() == allowed_users@,
            r.group_senders() == Seq::<String>::empty(),
            r.threads_replies() == thread_replies,
            r.mention_gated() == mention_only,
            r.activity() == Map::<Seq<char>, u64>::empty(),
            r.activity_ttl() == thread_ttl_minutes as u64 * crate::activity::MS_PER_MINUTE,
            r.bot_token_spec() == bot_token@,
            r.admin_token_spec() == opt_string_chars(admin_token),
            r.channel_scope() == opt_string_chars(channel_id),
    {
        let cs = chars_of(base_url.as_str());
        let mut end: usize = cs.len();
        assert(cs@.take(end as int) =~= cs@);
        while end > 0 && cs[end - 1] == '/'
            invariant
                end <= cs@.len(),
                cs@ == base_url@,
                strip_trailing_slashes(cs@.take(end as int)) == strip_trailing_slashes(base_url@),
            decreases end,
        {
            assert(cs@.take(end as int).drop_last() =~= cs@.take(end - 1));
            end = end - 1;
        }
        let trimmed = string_of(&cs, 0, end);
        assert(cs@.subrange(0, end as int) =~= cs@.take(end as int));
        MattermostChannel {
            base_url: trimmed,
            bot_token,
            channel_id,
            allowed_users,
            thread_replies,
            mention_only,
            thread_state: ThreadActivity::new(thread_ttl_minutes),
            group_reply_allowed_sender_ids: Vec::new(),
            aieos_path,
            sync_profile,
            admin_token,
        }
    }

    /// The bot token.
    pub fn bot_token(&self) -> &str {
        self.bot_token.as_str()
    }

    /// The admin token for profile updates, if any.
    pub fn admin_token(&self) -> Option<&str> {
        match &self.admin_token {
            Some(t) => Some(t.as_str()),
            None => None,
        }
    }

    /// The channel the adapter is limited to, if any.
    pub fn channel_id(&self) -> Option<&str> {
        match &self.channel_id {
            Some(c) => Some(c.as_str()),
            None => None,
        }
    }

    /// The path of the identity document used for profile sync, if any.
    pub fn aieos_path(&self) -> Option<&str> {
        match &self.aieos_path {
            Some(p) => Some(p.as_str()),
            None => None,
        }
    }

    /// Whether the bot profile is synced at connect.
    pub fn sync_profile(&self) -> bool {
        self.sync_profile
    }

    /// The REST base URL.
    pub fn base_url(&self) -> (r: &str)
        ensures
            r@ == self.base_url_spec(),
    {
        self.base_url.as_str()
    }

    /// Sets the senders that bypass mention gating in channels, normalised.
    pub fn with_group_reply_allowed_senders(self, sender_ids: Vec<String>) -> (r: Self)
        requires
            self.wf(),
        ensures
            r.wf(),
            views(r.group_senders()).to_set() == trimmed_ids(sender_ids@).to_set(),
            views(r.group_senders()).no_duplicates(),
            r.base_url_spec() == self.base_url_spec(),
            r.allowed() == self.allowed(),
            r.threads_replies() == self.threads_replies(),
            r.mention_gated() == self.mention_gated(),
            r.activity() == self.activity(),
            r.activity_ttl() == self.activity_ttl(),
    {
        let mut s = self;
        s.group_reply_allowed_sender_ids = normalize_group_reply_allowed_sender_ids(sender_ids);
        s
    }

    /// Whether `user_id` is on the allowlist (`"*"` allows everyone).
    pub fn is_user_allowed(&self, user_id: &str) -> (r: bool)
        ensures
            r == authorized(self.allowed(), user_id@),
    {
        is_user_allowed(&self.allowed_users, user_id)
    }

    /// Whether `user_id`, trimmed and not empty, bypasses mention gating.
    pub fn is_group_sender_trigger_enabled(&self, user_id: &str) -> (r: bool)
        ensures
            r == (trim(user_id@).len() > 0 && authorized(self.group_senders(), trim(user_id@))),
    {
        let cs = chars_of(user_id);
        let (lo, hi) = trim_bounds(&cs);
        if lo == hi {
            return false;
        }
        let t = string_of(&cs, lo, hi);
        is_user_allowed(&self.group_reply_allowed_sender_ids, t.as_str())
    }

    /// The WebSocket URL: `https://` becomes `wss://`, `http://` becomes `ws://`
    /// (no scheme: `wss://`), then `/api/v4/websocket`.
    pub fn websocket_url(&self) -> (r: String)
        ensures
            r@ == ws_url(self.base_url_spec()),
    {
        proof {
            reveal_strlit("wss://");
            reveal_strlit("ws://");
            reveal_strlit("/api/v4/websocket");
        }
        let cs = chars_of(self.base_url.as_str());
        let https = cs.len() >= 8 && cs[0] == 'h' && cs[1] == 't' && cs[2] == 't' && cs[3] == 'p'
            && cs[4] == 's' && cs[5] == ':' && cs[6] == '/' && cs[7] == '/';
        let http = cs.len() >= 7 && cs[0] == 'h' && cs[1] == 't' && cs[2] == 't' && cs[3] == 'p'
            && cs[4] == ':' && cs[5] == '/' && cs[6] == '/';
        proof {
            reveal_strlit("https://");
            reveal_strlit("http://");
            if cs@.len() >= 8 && cs@.take(8) == "https://"@ {
                assert(cs@.take(8)[0] == cs@[0] && cs@.take(8)[4] == cs@[4] && cs@.take(8)[7] == cs@[7]);
                assert(cs@.take(8)[1] == cs@[1] && cs@.take(8)[2] == cs@[2] && cs@.take(8)[3] == cs@[3]);
                assert(cs@.take(8)[5] == cs@[5] && cs@.take(8)[6] == cs@[6]);
            }
            if https {
                assert(cs@.take(8) =~= "https://"@);
            }
            if cs@.len() >= 7 && cs@.take(7) == "http://"@ {
                assert(cs@.take(7)[0] == cs@[0] && cs@.take(7)[4] == cs@[4] && cs@.take(7)[6] == cs@[6]);
                assert(cs@.take(7)[1] == cs@[1] && cs@.take(7)[2] == cs@[2] && cs@.take(7)[3] == cs@[3]);
                assert(cs@.take(7)[5] == cs@[5]);
            }
            if http {
                assert(cs@.take(7) =~= "http://"@);
            }
        }
        let mut r = String::new();
        if https {
            push_str(&mut r, "wss://");
            let rest = string_of(&cs, 8, cs.len());
            push_str(&mut r, rest.as_str());
            assert(cs@.subrange(8, cs@.len() as int) =~= cs@.skip(8));
        } else if http {
            push_str(&mut r, "ws://");
            let rest = string_of(&cs, 7, cs.len());
            push_str(&mut r, rest.as_str());
            assert(cs@.subrange(7, cs@.len() as int) =~= cs@.skip(7));
        } else {
            push_str(&mut r, "wss://");
            push_str(&mut r, self.base_url.as_str());
        }
        push_str(&mut r, "/api/v4/websocket");
        r
    }

    /// Decides whether a post reaches the agent, and as what.
    ///
    /// Dropped: the bot's own posts, posts not newer than `last_create_at`, empty
    /// posts, posts from users off the allowlist. With mention gating (and a sender
    /// that does not bypass it): a post that mentions the bot yields its normalised
    /// content and touches its thread, but a bare mention yields nothing and
    /// touches nothing; a post in an active thread passes unchanged and refreshes
    /// the thread; anything else is dropped. A post with a root replies in that
    /// thread; a top-level post replies in a new thread when thread replies are on,
    /// else at channel level.
    pub fn parse_mattermost_post(
        &mut self,
        post: &MattermostPost,
        bot_user_id: &str,
        bot_username: &str,
        last_create_at: i64,
        channel_id: &str,
        now_ms: u64,
    ) -> (r: Option<ChannelMessage>)
        requires
            old(self).wf(),
        ensures
            final(self).wf(),
            final(self).allowed() == old(self).allowed(),
            final(self).group_senders() == old(self).group_senders(),
            final(self).threads_replies() == old(self).threads_replies(),
            final(self).mention_gated() == old(self).mention_gated(),
            final(self).base_url_spec() == old(self).base_url_spec(),
            final(self).channel_scope() == old(self).channel_scope(),
            final(self).activity_ttl() == old(self).activity_ttl(),
            post_result(
                old(self).allowed(),
                old(self).group_senders(),
                old(self).mention_gated(),
                old(self).threads_replies(),
                old(self).activity_ttl(),
                old(self).activity(),
                final(self).activity(),
                *post,
                bot_user_id@,
                bot_username@,
                last_create_at,
                channel_id@,
                now_ms,
                r,
            ),
    {
        proof {
            reveal_strlit("mattermost_");
            reveal_strlit("mattermost");
        }
        let id = post.id.as_str();
        let user_id = post.user_id.as_str();
        let text = post.message.as_str();
        let root_id = post.root_id.as_str();
        if str_eq(user_id, bot_user_id) || post.create_at <= last_create_at || text.is_empty() {
            return None;
        }
        if !self.is_user_allowed(user_id) {
            return None;
        }
        let require_mention = self.mention_only && !self.is_group_sender_trigger_enabled(user_id);
        let content = if require_mention {
            let thread_id = if root_id.is_empty() { id } else { root_id };
            let has_mention = contains_bot_mention(text, bot_user_id, bot_username, &post.metadata_mentions);
            let in_active = !thread_id.is_empty() && self.thread_state.is_active(thread_id, now_ms);
            if has_mention {
                let content = match normalize_content(text, bot_user_id, bot_username, &post.metadata_mentions) {
                    Some(c) => c,
                    None => return None,
                };
                if !thread_id.is_empty() {
                    self.thread_state.touch(thread_id, now_ms);
                }
                content
            } else if in_active {
                self.thread_state.touch(thread_id, now_ms);
                copy_str(text)
            } else {
                return None;
            }
        } else {
            copy_str(text)
        };
        let reply_target = if !root_id.is_empty() {
            join_with_colon(channel_id, root_id)
        } else if self.thread_replies {
            join_with_colon(channel_id, id)
        } else {
            copy_str(channel_id)
        };
        let mut msg_id = String::new();
        push_str(&mut msg_id, "mattermost_");
        push_str(&mut msg_id, id);
        let timestamp: u64 = if post.create_at >= 0 { (post.create_at / 1000) as u64 } else { 0 };
        Some(
            ChannelMessage {
                id: msg_id,
                sender: copy_str(user_id),
                reply_target,
                content,
                channel: copy_str("mattermost"),
                timestamp,
                thread_ts: None,
            },
        )
    }
}

/// Reads a post from its JSON form.
pub fn post_from_value(post: &serde_json::Value) -> MattermostPost {
    MattermostPost {
        id: str_at_or(post, "/id", "/id", ""),
        user_id: str_at_or(post, "/user_id", "/user_id", ""),
        message: str_at_or(post, "/message", "/message", ""),
        create_at: match i64_at(post, "/create_at") {
            Some(t) => t,
            None => 0,
        },
        root_id: str_at_or(post, "/root_id", "/root_id", ""),
        metadata_mentions: strings_at(post, "/metadata/mentions"),
    }
}

/// What reading a post does: the activity map goes from `before` to `after` as
/// `post_outcome` says, and a message comes out exactly when it gives content,
/// with the post's id, sender and reply target.
pub open spec fn post_result(
    allowed: Seq<String>,
    group_senders: Seq<String>,
    mention_only: bool,
    thread_replies: bool,
    ttl: u64,
    before: Map<Seq<char>, u64>,
    after: Map<Seq<char>, u64>,
    post: MattermostPost,
    bot_user_id: Seq<char>,
    bot_username: Seq<char>,
    last_create_at: i64,
    channel_id: Seq<char>,
    now_ms: u64,
    r: Option<ChannelMessage>,
) -> bool {
    let outcome = post_outcome(
        allowed,
        group_senders,
        mention_only,
        before,
        ttl,
        post,
        bot_user_id,
        bot_username,
        last_create_at,
        now_ms,
    );
    &&& after == outcome.0
    &&& (r is Some <==> outcome.1 is Some)
    &&& (r matches Some(m) ==> {
        &&& Some(m.content@) == outcome.1
        &&& m.id@ == "mattermost_"@ + post.id@
        &&& m.sender@ == post.user_id@
        &&& m.reply_target@ == reply_target_of(channel_id, post.root_id@, post.id@, thread_replies)
        &&& m.channel@ == "mattermost"@
        &&& (post.create_at >= 0 ==> m.timestamp == post.create_at / 1000)
        &&& m.thread_ts is None
    })
}

/// Reads a WebSocket `posted` event: its `data.post` is a JSON document in a
/// string, and its channel is `broadcast.channel_id`, else the post's own
/// `channel_id`. `None` for a malformed event.
pub fn posted_event(event: &serde_json::Value) -> Option<(MattermostPost, String)> {
    if !has_at(event, "/data") || !has_at(event, "/broadcast") {
        return None;
    }
    let post_text = str_at(event, "/data/post")?;
    let post = parse_json(post_text.as_str())?;
    let channel = match str_at(event, "/broadcast/channel_id") {
        Some(c) if !c.as_str().is_empty() => c,
        _ => str_at(&post, "/channel_id")?,
    };
    Some((post_from_value(&post), channel))
}

impl MattermostChannel {
    /// The channel the adapter is limited to, if any.
    pub closed spec fn channel_scope(&self) -> Option<Seq<char>> {
        opt_string_chars(self.channel_id)
    }

    /// Decides on a post that arrived over the WebSocket in `channel`: outside
    /// the configured channel (if one is set) it is dropped and changes nothing;
    /// otherwise as `parse_mattermost_post` with no timestamp watermark.
    pub fn parse_ws_posted_event(
        &mut self,
        post: &MattermostPost,
        channel: &str,
        bot_user_id: &str,
        bot_username: &str,
        now_ms: u64,
    ) -> (r: Option<ChannelMessage>)
        requires
            old(self).wf(),
        ensures
            final(self).wf(),
            final(self).allowed() == old(self).allowed(),
            final(self).group_senders() == old(self).group_senders(),
            final(self).threads_replies() == old(self).threads_replies(),
            final(self).mention_gated() == old(self).mention_gated(),
            final(self).base_url_spec() == old(self).base_url_spec(),
            final(self).activity_ttl() == old(self).activity_ttl(),
            final(self).channel_scope() == old(self).channel_scope(),
            !in_scope(old(self).channel_scope(), channel@) ==> r is None && final(self).activity()
                == old(self).activity(),
            in_scope(old(self).channel_scope(), channel@) ==> post_result(
                old(self).allowed(),
                old(self).group_senders(),
                old(self).mention_gated(),
                old(self).threads_replies(),
                old(self).activity_ttl(),
                old(self).activity(),
                final(self).activity(),
                *post,
                bot_user_id@,
                bot_username@,
                0,
                channel@,
                now_ms,
                r,
            ),
    {
        if let Some(cid) = &self.channel_id {
            if !str_eq(channel, cid.as_str()) {
                return None;
            }
        }
        self.parse_mattermost_post(post, bot_user_id, bot_username, 0, channel, now_ms)
    }
}

/// Frames read after the authentication challenge before giving up on a reply.
pub const MAX_AUTH_FRAMES: usize = 5;

/// What a frame read after the authentication challenge says.
#[derive(Debug, Clone, Copy, PartialEq, Eq, Structural)]
pub enum AuthReply {
    /// No `status` field (a `hello` event, say): keep reading.
    Pending,
    /// `status` is `OK`: authenticated.
    Accepted,
    /// Any other `status`: authentication failed.
    Refused,
}

/// Classifies the `status` of a frame read after the authentication challenge.
pub fn auth_reply(status: Option<&str>) -> (r: AuthReply)
    ensures
        status is None ==> r == AuthReply::Pending,
        status matches Some(s) ==> r == (if s@ == "OK"@ {
            AuthReply::Accepted
        } else {
            AuthReply::Refused
        }),
{
    match status {
        None => AuthReply::Pending,
        Some(s) => if str_eq(s, "OK") {
            AuthReply::Accepted
        } else {
            AuthReply::Refused
        },
    }
}

/// Consecutive failed WebSocket connections after which the adapter gives up.
pub const WS_MAX_RECONNECT: u32 = 10;

/// Longest wait between WebSocket connections, in seconds.
pub const WS_MAX_BACKOFF_SECS: u64 = 60;

/// `2^n`.
pub open spec fn pow2(n: nat) -> nat
    decreases n,
{
    if n == 0 {
        1
    } else {
        2 * pow2((n - 1) as nat)
    }
}

/// The wait, in seconds, after the `attempts`-th consecutive failed WebSocket
/// connection; `None` once `WS_MAX_RECONNECT` attempts have failed.
pub open spec fn ws_retry_delay(attempts: u32) -> Option<u64> {
    if attempts == 0 || attempts >= WS_MAX_RECONNECT {
        None
    } else {
        let shift: nat = if attempts - 1 > 6 { 6 } else { (attempts - 1) as nat };
        Some(if pow2(shift) > WS_MAX_BACKOFF_SECS { WS_MAX_BACKOFF_SECS } else { pow2(shift) as u64 })
    }
}

/// Decides the wait before reconnecting after the `attempts`-th consecutive
/// failure: 1 s doubling (the shift capped at 6), at most `WS_MAX_BACKOFF_SECS`;
/// `None` to give up.
pub fn ws_reconnect_delay(attempts: u32) -> (r: Option<u64>)
    ensures
        r == ws_retry_delay(attempts),
{
    if attempts == 0 || attempts >= WS_MAX_RECONNECT {
        return None;
    }
    let shift: u32 = if attempts - 1 > 6 { 6 } else { attempts - 1 };
    let mut p: u64 = 1;
    let mut i: u32 = 0;
    while i < shift
        invariant
            i <= shift <= 6,
            p == pow2(i as nat),
            p <= 64,
        decreases shift - i,
    {
        proof {
            assert(pow2((i + 1) as nat) == 2 * pow2(i as nat));
            if i < 6 {
                lemma_pow2_small(i as nat);
            }
        }
        p = p * 2;
        i = i + 1;
    }
    Some(if p > WS_MAX_BACKOFF_SECS { WS_MAX_BACKOFF_SECS } else { p })
}

proof fn lemma_pow2_small(n: nat)
    requires
        n < 6,
    ensures
        pow2(n) <= 32,
{
    assert(pow2(0) == 1);
    assert(pow2(1) == 2);
    assert(pow2(2) == 4);
    assert(pow2(3) == 8);
    assert(pow2(4) == 16);
    assert(pow2(5) == 32);
}

/// Longest bot description, in characters.
pub const MAX_DESCRIPTION_CHARS: usize = 128;

/// Largest avatar downloaded, in bytes.
pub const MAX_AVATAR_BYTES: u64 = 10 * 1024 * 1024;

/// The bot profile derived from an identity document.
pub struct BotProfile {
    /// The display name: the identity's first name.
    pub display_name: String,
    /// The bio, cut to `MAX_DESCRIPTION_CHARS` characters.
    pub description: String,
    /// Where to fetch an avatar from, when no local one exists.
    pub avatar_url: Option<String>,
}

/// Builds the profile fields: the name as given, the bio cut to
/// `MAX_DESCRIPTION_CHARS` characters.
pub fn profile_fields(first_name: &str, bio: &str, avatar_url: Option<String>) -> (r: BotProfile)
    ensures
        r.display_name@ == first_name@,
        r.description@ == (if bio@.len() <= MAX_DESCRIPTION_CHARS {
            bio@
        } else {
            bio@.take(MAX_DESCRIPTION_CHARS as int)
        }),
        opt_string_chars(r.avatar_url) == opt_string_chars(avatar_url),
{
    let cs = chars_of(bio);
    let n = if cs.len() <= MAX_DESCRIPTION_CHARS { cs.len() } else { MAX_DESCRIPTION_CHARS };
    let description = string_of(&cs, 0, n);
    assert(cs@.subrange(0, n as int) =~= if bio@.len() <= MAX_DESCRIPTION_CHARS {
        bio@
    } else {
        bio@.take(MAX_DESCRIPTION_CHARS as int)
    });
    BotProfile { display_name: copy_str(first_name), description, avatar_url }
}

/// Reads the profile from an identity document (`identity.names.first`,
/// `identity.bio`, `identity.avatar_url`).
pub fn profile_from_identity(doc: &serde_json::Value) -> BotProfile {
    let first = str_at_or(doc, "/identity/names/first", "/identity/names/first", "");
    let bio = str_at_or(doc, "/identity/bio", "/identity/bio", "");
    profile_fields(first.as_str(), bio.as_str(), str_at(doc, "/identity/avatar_url"))
}

/// Whether the profile has anything to write.
pub fn profile_needs_update(p: &BotProfile) -> (r: bool)
    ensures
        r == (p.display_name@.len() > 0 || p.description@.len() > 0),
{
    !p.display_name.as_str().is_empty() || !p.description.as_str().is_empty()
}

/// The content type of an avatar fetched from `url`: PNG when its path (the
/// query string removed) ends in `.png`, else JPEG.
pub fn avatar_content_type(url: &str) -> (r: &'static str)
    ensures
        r@ == (if ends_with_png(crate::slack::before_char(url@, '?')) {
            "image/png"@
        } else {
            "image/jpeg"@
        }),
{
    let cs = chars_of(url);
    let mut end: usize = 0;
    while end < cs.len() && cs[end] != '?'
        invariant
            end <= cs.len(),
            forall|j: int| 0 <= j < end ==> cs@[j] != '?',
        decreases cs.len() - end,
    {
        end = end + 1;
    }
    proof {
        assert forall|j: int| 0 <= j < end implies !#[trigger] crate::text::at_char(cs@, '?')(j) by {}
        crate::text::lemma_first_where(cs@.len() as int, crate::text::at_char(cs@, '?'), end as int);
    }
    let ghost path = cs@.take(end as int);
    let png = end >= 4 && cs[end - 4] == '.' && cs[end - 3] == 'p' && cs[end - 2] == 'n' && cs[end - 1] == 'g';
    proof {
        if end >= 4 {
            assert(path.skip(path.len() - 4)[0] == cs@[end - 4]);
            assert(path.skip(path.len() - 4)[1] == cs@[end - 3]);
            assert(path.skip(path.len() - 4)[2] == cs@[end - 2]);
            assert(path.skip(path.len() - 4)[3] == cs@[end - 1]);
            if png {
                assert(path.skip(path.len() - 4) =~= seq!['.', 'p', 'n', 'g']);
            }
        }
    }
    if png {
        "image/png"
    } else {
        "image/jpeg"
    }
}

/// Whether `path` ends in `.png`.
pub open spec fn ends_with_png(path: Seq<char>) -> bool {
    path.len() >= 4 && path.skip(path.len() - 4) == seq!['.', 'p', 'n', 'g']
}

/// Whether an avatar of the announced length is too large to fetch.
pub fn avatar_too_large(content_length: Option<u64>) -> (r: bool)
    ensures
        r == (content_length matches Some(n) && n > MAX_AVATAR_BYTES),
{
    match content_length {
        Some(n) => n > MAX_AVATAR_BYTES,
        None => false,
    }
}

impl MattermostChannel {
    /// The token for profile updates: the admin token, trimmed, unless blank;
    /// else the bot token.
    pub fn profile_sync_token(&self) -> (r: String)
        ensures
            r@ == (match self.admin_token_spec() {
                Some(t) if trim(t).len() > 0 => trim(t),
                _ => self.bot_token_spec(),
            }),
    {
        if let Some(t) = &self.admin_token {
            let cs = chars_of(t.as_str());
            let (lo, hi) = trim_bounds(&cs);
            if lo < hi {
                return string_of(&cs, lo, hi);
            }
        }
        copy_str(self.bot_token.as_str())
    }
}

/// The WebSocket URL for a REST base URL.
pub open spec fn ws_url(base: Seq<char>) -> Seq<char> {
    if base.len() >= 8 && base.take(8) == "https://"@ {
        "wss://"@ + base.skip(8) + "/api/v4/websocket"@
    } else if base.len() >= 7 && base.take(7) == "http://"@ {
        "ws://"@ + base.skip(7) + "/api/v4/websocket"@
    } else {
        "wss://"@ + base + "/api/v4/websocket"@
    }
}

/// Where the reply to a post goes: its thread when it has a root; a new thread on
/// the post itself when thread replies are on; else the channel.
pub open spec fn reply_target_of(
    channel_id: Seq<char>,
    root_id: Seq<char>,
    post_id: Seq<char>,
    thread_replies: bool,
) -> Seq<char> {
    if root_id.len() > 0 {
        colon_join(channel_id, root_id)
    } else if thread_replies {
        colon_join(channel_id, post_id)
    } else {
        channel_id
    }
}

/// The activity after a post is read, and the content handed to the agent, if any.
pub open spec fn post_outcome(
    allowed: Seq<String>,
    group_senders: Seq<String>,
    mention_only: bool,
    activity: Map<Seq<char>, u64>,
    ttl: u64,
    post: MattermostPost,
    bot_user_id: Seq<char>,
    bot_username: Seq<char>,
    last_create_at: i64,
    now_ms: u64,
) -> (Map<Seq<char>, u64>, Option<Seq<char>>) {
    let text = post.message@;
    let thread_id = if post.root_id@.len() == 0 { post.id@ } else { post.root_id@ };
    if post.user_id@ == bot_user_id || post.create_at <= last_create_at || text.len() == 0 {
        (activity, None)
    } else if !authorized(allowed, post.user_id@) {
        (activity, None)
    } else if !mention_only || (trim(post.user_id@).len() > 0 && authorized(
        group_senders,
        trim(post.user_id@),
    )) {
        (activity, Some(text))
    } else if mentions_bot(text, bot_user_id, bot_username, post.metadata_mentions@) {
        match normalized(text, bot_user_id, bot_username, post.metadata_mentions@) {
            None => (activity, None),
            Some(c) => (
                if thread_id.len() > 0 {
                    evict(activity.insert(thread_id, now_ms), now_ms, ttl)
                } else {
                    activity
                },
                Some(c),
            ),
        }
    } else if thread_id.len() > 0 && active_in(activity, thread_id, now_ms, ttl) {
        (evict(activity.insert(thread_id, now_ms), now_ms, ttl), Some(text))
    } else {
        (activity, None)
    }
}

/// The bot never reads its own posts, whatever the thread's state.
pub proof fn lemma_own_posts_dropped(
    allowed: Seq<String>,
    group_senders: Seq<String>,
    mention_only: bool,
    activity: Map<Seq<char>, u64>,
    ttl: u64,
    post: MattermostPost,
    bot_user_id: Seq<char>,
    bot_username: Seq<char>,
    last_create_at: i64,
    now_ms: u64,
)
    requires
        post.user_id@ == bot_user_id,
    ensures
        post_outcome(allowed, group_senders, mention_only, activity, ttl, post, bot_user_id,
            bot_username, last_create_at, now_ms) == (activity, None::<Seq<char>>),
{
}

/// A post whose only content is a mention of the bot yields nothing and leaves
/// the thread activity as it was, even in an active thread.
pub proof fn lemma_bare_mention_touches_nothing(
    allowed: Seq<String>,
    group_senders: Seq<String>,
    mention_only: bool,
    activity: Map<Seq<char>, u64>,
    ttl: u64,
    post: MattermostPost,
    bot_user_id: Seq<char>,
    bot_username: Seq<char>,
    last_create_at: i64,
    now_ms: u64,
)
    requires
        mention_only,
        !(trim(post.user_id@).len() > 0 && authorized(group_senders, trim(post.user_id@))),
        mentions_bot(post.message@, bot_user_id, bot_username, post.metadata_mentions@),
        normalized(post.message@, bot_user_id, bot_username, post.metadata_mentions@) is None,
    ensures
        post_outcome(allowed, group_senders, mention_only, activity, ttl, post, bot_user_id,
            bot_username, last_create_at, now_ms) == (activity, None::<Seq<char>>),
{
}

} // verus!

//! What the adapters hand to the agent, and how threads are keyed.
use vstd::prelude::*;
use crate::text::{push_char, push_str};

verus! {

/// A message from a chat platform, ready for the agent.
#[derive(Debug)]
pub struct ChannelMessage {
    /// Platform-unique id.
    pub id: String,
    /// Opaque user id of the sender.
    pub sender: String,
    /// Where the reply goes: a channel id, or `"<channel>:<root>"` for a thread.
    pub reply_target: String,
    /// The normalised text.
    pub content: String,
    /// Source platform (`"slack"`, `"mattermost"`).
    pub channel: String,
    /// UNIX seconds.
    pub timestamp: u64,
    /// Thread root id, where the platform has one.
    pub thread_ts: Option<String>,
}

/// The characters of an optional string.
pub open spec fn opt_chars(o: Option<&str>) -> Option<Seq<char>> {
    match o {
        Some(s) => Some(s@),
        None => None,
    }
}

/// The characters of an optional owned string.
pub open spec fn opt_string_chars(o: Option<String>) -> Option<Seq<char>> {
    match o {
        Some(s) => Some(s@),
        None => None,
    }
}

/// `a`, a colon, and `b`: the form of thread keys and threaded reply targets.
pub open spec fn colon_join(a: Seq<char>, b: Seq<char>) -> Seq<char> {
    a + seq![':'] + b
}

/// Builds `"<a>:<b>"`.
pub fn join_with_colon(a: &str, b: &str) -> (r: String)
    ensures
        r@ == colon_join(a@, b@),
{
    let mut r = String::new();
    push_str(&mut r, a);
    push_char(&mut r, ':');
    push_str(&mut r, b);
    assert(r@ =~= colon_join(a@, b@));
    r
}

/// A copy of `s`.
pub fn copy_str(s: &str) -> (r: String)
    ensures
        r@ == s@,
{
    let mut r = String::new();
    push_str(&mut r, s);
    assert(r@ =~= s@);
    r
}

} // verus!

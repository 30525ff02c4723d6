//! Per-thread wake/sleep state.
//!
//! A thread is awake (the bot answers freely) or sleeping (the bot answers only
//! when mentioned). Inbound events drive the transitions; the caller runs the
//! inactivity timers and calls [`WakeSleepEngine::mark_sleeping`] on expiry.
use vstd::prelude::*;
use crate::text::str_eq;

verus! {

/// Inactivity, in seconds, after which a thread goes to sleep.
pub const INACTIVITY_TIMEOUT_SECS: u64 = 3600;

/// Most threads tracked at once. A new thread beyond this is forwarded as awake
/// without being tracked.
pub const MAX_ENTRIES: usize = 10_000;

/// What to do with an inbound event.
#[derive(Debug, Clone, Copy, PartialEq, Eq, Structural)]
pub enum EventDecision {
    /// The thread is awake: process the event.
    Forward,
    /// The thread was sleeping and this mention woke it: process the event.
    Wake,
    /// The thread is sleeping and the event is no mention: drop it.
    Discard,
}

struct ThreadEntry {
    key: String,
    awake: bool,
}

/// Whether thread `k` is awake in the state `m` (key to "awake").
pub open spec fn awake_in(m: Map<Seq<char>, bool>, k: Seq<char>) -> bool {
    !m.contains_key(k) || m[k]
}

/// The state after an event on thread `k`, and the decision taken.
pub open spec fn step(m: Map<Seq<char>, bool>, k: Seq<char>, is_mention: bool) -> (
    Map<Seq<char>, bool>,
    EventDecision,
) {
    if !m.contains_key(k) {
        if m.len() >= MAX_ENTRIES {
            (m, EventDecision::Forward)
        } else {
            (m.insert(k, true), EventDecision::Forward)
        }
    } else if m[k] {
        (m, EventDecision::Forward)
    } else if is_mention {
        (m.insert(k, true), EventDecision::Wake)
    } else {
        (m, EventDecision::Discard)
    }
}

/// The state after thread `k` is put to sleep; an untracked thread stays untracked.
pub open spec fn sleep(m: Map<Seq<char>, bool>, k: Seq<char>) -> Map<Seq<char>, bool> {
    if m.contains_key(k) {
        m.insert(k, false)
    } else {
        m
    }
}

spec fn map_of(s: Seq<ThreadEntry>) -> Map<Seq<char>, bool>
    decreases s.len(),
{
    if s.len() == 0 {
        Map::empty()
    } else {
        map_of(s.drop_last()).insert(s.last().key@, s.last().awake)
    }
}

spec fn unique_keys(s: Seq<ThreadEntry>) -> bool {
    forall|i: int, j: int| 0 <= i < j < s.len() ==> (#[trigger] s[i]).key@ != (#[trigger] s[j]).key@
}

proof fn lemma_map_of(s: Seq<ThreadEntry>)
    requires
        unique_keys(s),
    ensures
        map_of(s).dom().finite(),
        map_of(s).len() == s.len(),
        forall|i: int|
            0 <= i < s.len() ==> map_of(s).contains_key((#[trigger] s[i]).key@) && map_of(s)[s[i].key@]
                == s[i].awake,
        forall|k: Seq<char>|
            map_of(s).contains_key(k) ==> exists|i: int| 0 <= i < s.len() && (#[trigger] s[i]).key@ == k,
    decreases s.len(),
{
    if s.len() > 0 {
        let p = s.drop_last();
        assert(unique_keys(p)) by {
            assert forall|i: int, j: int| 0 <= i < j < p.len() implies (#[trigger] p[i]).key@
                != (#[trigger] p[j]).key@ by {
                assert(p[i] == s[i] && p[j] == s[j]);
            }
        }
        lemma_map_of(p);
        if map_of(p).contains_key(s.last().key@) {
            let i = choose|i: int| 0 <= i < p.len() && (#[trigger] p[i]).key@ == s.last().key@;
            assert(s[i] == p[i]);
            assert(false);
        }
        assert forall|i: int| 0 <= i < s.len() implies map_of(s).contains_key(
            (#[trigger] s[i]).key@,
        ) && map_of(s)[s[i].key@] == s[i].awake by {
            if i < s.len() - 1 {
                assert(s[i] == p[i]);
            }
        }
        assert forall|k: Seq<char>| map_of(s).contains_key(k) implies exists|i: int|
            0 <= i < s.len() && (#[trigger] s[i]).key@ == k by {
            if k != s.last().key@ {
                let i = choose|i: int| 0 <= i < p.len() && (#[trigger] p[i]).key@ == k;
                assert(s[i] == p[i]);
            } else {
                assert(s[s.len() - 1].key@ == k);
            }
        }
    }
}

proof fn lemma_map_of_update(s: Seq<ThreadEntry>, i: int, e: ThreadEntry)
    requires
        unique_keys(s),
        0 <= i < s.len(),
        e.key@ == s[i].key@,
    ensures
        unique_keys(s.update(i, e)),
        map_of(s.update(i, e)) == map_of(s).insert(e.key@, e.awake),
    decreases s.len(),
{
    let t = s.update(i, e);
    assert(unique_keys(t)) by {
        assert forall|a: int, b: int| 0 <= a < b < t.len() implies (#[trigger] t[a]).key@
            != (#[trigger] t[b]).key@ by {
            assert(t[a].key@ == s[a].key@ && t[b].key@ == s[b].key@);
        }
    }
    let p = s.drop_last();
    assert(unique_keys(p)) by {
        assert forall|a: int, b: int| 0 <= a < b < p.len() implies (#[trigger] p[a]).key@
            != (#[trigger] p[b]).key@ by {
            assert(p[a] == s[a] && p[b] == s[b]);
        }
    }
    if i == s.len() - 1 {
        assert(t.drop_last() =~= p);
        lemma_map_of(s);
        assert(map_of(t) =~= map_of(s).insert(e.key@, e.awake));
    } else {
        lemma_map_of_update(p, i, e);
        assert(t.drop_last() =~= p.update(i, e));
        assert(t.last() == s.last());
        assert(s.last().key@ != e.key@) by {
            assert(s[i].key@ != s[s.len() - 1].key@);
        }
        assert(map_of(t) =~= map_of(s).insert(e.key@, e.awake));
    }
}

/// Per-thread wake/sleep state, keyed by thread key (`"<channel>:<thread>"`).
pub struct WakeSleepEngine {
    entries: Vec<ThreadEntry>,
}

impl View for WakeSleepEngine {
    type V = Map<Seq<char>, bool>;

    closed spec fn view(&self) -> Map<Seq<char>, bool> {
        map_of(self.entries@)
    }
}

impl WakeSleepEngine {
    /// The engine's internal invariant: each thread appears once.
    pub closed spec fn wf(&self) -> bool {
        unique_keys(self.entries@)
    }

    /// The state holds finitely many threads.
    pub proof fn lemma_finite(&self)
        requires
            self.wf(),
        ensures
            self@.dom().finite(),
    {
        lemma_map_of(self.entries@);
    }

    /// An engine that tracks no thread.
    pub fn new() -> (r: Self)
        ensures
            r.wf(),
            r@ == Map::<Seq<char>, bool>::empty(),
    {
        WakeSleepEngine { entries: Vec::new() }
    }

    fn find(&self, thread_key: &str) -> (r: Option<usize>)
        requires
            self.wf(),
        ensures
            r matches Some(i) ==> i < self.entries@.len() && self.entries@[i as int].key@
                == thread_key@,
            r is None ==> !self@.contains_key(thread_key@),
    {
        let mut i: usize = 0;
        while i < self.entries.len()
            invariant
                i <= self.entries@.len(),
                forall|j: int| 0 <= j < i ==> (#[trigger] self.entries@[j]).key@ != thread_key@,
            decreases self.entries.len() - i,
        {
            if str_eq(self.entries[i].key.as_str(), thread_key) {
                return Some(i);
            }
            i = i + 1;
        }
        proof {
            lemma_map_of(self.entries@);
        }
        None
    }

    fn set_awake(&mut self, i: usize, awake: bool)
        requires
            old(self).wf(),
            i < old(self).entries@.len(),
        ensures
            final(self).wf(),
            final(self)@ == old(self)@.insert(old(self).entries@[i as int].key@, awake),
    {
        let ghost s = self.entries@;
        let key = self.entries[i].key.clone();
        let e = ThreadEntry { key, awake };
        self.entries.set(i, e);
        proof {
            lemma_map_of_update(s, i as int, e);
        }
    }

    /// Processes an inbound event on a thread and says what to do with it.
    ///
    /// An unknown thread starts awake (untracked when the engine is full) and is
    /// forwarded; an awake thread is forwarded; a sleeping thread wakes on a
    /// mention and drops any other event.
    pub fn on_event(&mut self, thread_key: &str, is_mention: bool) -> (r: EventDecision)
        requires
            old(self).wf(),
        ensures
            final(self).wf(),
            (final(self)@, r) == step(old(self)@, thread_key@, is_mention),
    {
        proof {
            lemma_map_of(self.entries@);
        }
        match self.find(thread_key) {
            None => {
                if self.entries.len() >= MAX_ENTRIES {
                    return EventDecision::Forward;
                }
                let ghost s = self.entries@;
                let e = ThreadEntry { key: thread_key.to_owned(), awake: true };
                self.entries.push(e);
                proof {
                    assert(self.entries@.drop_last() =~= s);
                    assert(unique_keys(self.entries@)) by {
                        assert forall|a: int, b: int|
                            0 <= a < b < self.entries@.len() implies (
                        #[trigger] self.entries@[a]).key@ != (#[trigger] self.entries@[b]).key@ by {
                            if b == s.len() {
                                assert(self.entries@[a] == s[a]);
                                assert(map_of(s).contains_key(s[a].key@));
                            } else {
                                assert(self.entries@[a] == s[a] && self.entries@[b] == s[b]);
                            }
                        }
                    }
                }
                EventDecision::Forward
            },
            Some(i) => {
                if self.entries[i].awake {
                    EventDecision::Forward
                } else if is_mention {
                    self.set_awake(i, true);
                    EventDecision::Wake
                } else {
                    EventDecision::Discard
                }
            },
        }
    }

    /// Puts a tracked thread to sleep. An untracked thread (one dropped at
    /// capacity) is left untracked, so later events on it are still forwarded.
    pub fn mark_sleeping(&mut self, thread_key: &str)
        requires
            old(self).wf(),
        ensures
            final(self).wf(),
            final(self)@ == sleep(old(self)@, thread_key@),
    {
        proof {
            lemma_map_of(self.entries@);
        }
        if let Some(i) = self.find(thread_key) {
            self.set_awake(i, false);
        }
    }

    /// Whether the thread is awake: tracked and awake, or not tracked at all.
    pub fn is_awake(&self, thread_key: &str) -> (r: bool)
        requires
            self.wf(),
        ensures
            r == awake_in(self@, thread_key@),
    {
        proof {
            lemma_map_of(self.entries@);
        }
        match self.find(thread_key) {
            Some(i) => self.entries[i].awake,
            None => true,
        }
    }
}

/// After an event on thread `k` is forwarded or wakes the thread, `k` is awake
/// (a thread the engine does not track counts as awake).
pub proof fn lemma_forwarded_thread_is_awake(m: Map<Seq<char>, bool>, k: Seq<char>, is_mention: bool)
    requires
        step(m, k, is_mention).1 != EventDecision::Discard,
    ensures
        awake_in(step(m, k, is_mention).0, k),
{
}

/// Putting a tracked thread to sleep leaves it not awake.
pub proof fn lemma_sleeping_thread_is_not_awake(m: Map<Seq<char>, bool>, k: Seq<char>)
    requires
        m.contains_key(k),
    ensures
        !awake_in(sleep(m, k), k),
{
}

/// Putting an untracked thread to sleep changes nothing: a later event on it that
/// is no mention is still forwarded.
pub proof fn lemma_untracked_sleep_is_noop(m: Map<Seq<char>, bool>, k: Seq<char>)
    requires
        !m.contains_key(k),
    ensures
        sleep(m, k) == m,
        step(sleep(m, k), k, false).1 == EventDecision::Forward,
{
}

} // verus!

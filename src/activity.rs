//! Per-thread activity window for mention-gated continuation.
//!
//! A thread is active while its last touch lies within the TTL. Each touch
//! records the thread and evicts every thread whose window has closed. Times
//! are milliseconds on a monotonic clock, handed in by the caller.
use vstd::prelude::*;
use crate::text::str_eq;

verus! {

/// Milliseconds from `then` to `now`; zero when `now` is earlier.
pub open spec fn elapsed(now: u64, then: u64) -> int {
    if now >= then {
        now - then
    } else {
        0
    }
}

/// Whether thread `k` is active at `now` in the last-touch map `m`.
pub open spec fn active_in(m: Map<Seq<char>, u64>, k: Seq<char>, now: u64, ttl: u64) -> bool {
    m.contains_key(k) && elapsed(now, m[k]) < ttl
}

/// `m` without the threads whose window has closed at `now`.
pub open spec fn evict(m: Map<Seq<char>, u64>, now: u64, ttl: u64) -> Map<Seq<char>, u64> {
    m.restrict(Set::new(|k: Seq<char>| active_in(m, k, now, ttl)))
}

struct Touch {
    key: String,
    at: u64,
}

spec fn touches_of(s: Seq<Touch>) -> Map<Seq<char>, u64>
    decreases s.len(),
{
    if s.len() == 0 {
        Map::empty()
    } else {
        touches_of(s.drop_last()).insert(s.last().key@, s.last().at)
    }
}

spec fn unique(s: Seq<Touch>) -> bool {
    forall|i: int, j: int| 0 <= i < j < s.len() ==> (#[trigger] s[i]).key@ != (#[trigger] s[j]).key@
}

proof fn lemma_touches(s: Seq<Touch>)
    requires
        unique(s),
    ensures
        forall|i: int|
            0 <= i < s.len() ==> touches_of(s).contains_key((#[trigger] s[i]).key@) && touches_of(s)[s[i].key@]
                == s[i].at,
        forall|k: Seq<char>|
            touches_of(s).contains_key(k) ==> exists|i: int| 0 <= i < s.len() && (#[trigger] s[i]).key@ == k,
    decreases s.len(),
{
    if s.len() > 0 {
        let p = s.drop_last();
        assert(unique(p)) by {
            assert forall|i: int, j: int| 0 <= i < j < p.len() implies (#[trigger] p[i]).key@
                != (#[trigger] p[j]).key@ by {
                assert(p[i] == s[i] && p[j] == s[j]);
            }
        }
        lemma_touches(p);
        if touches_of(p).contains_key(s.last().key@) {
            let i = choose|i: int| 0 <= i < p.len() && (#[trigger] p[i]).key@ == s.last().key@;
            assert(s[i] == p[i]);
            assert(false);
        }
        assert forall|i: int| 0 <= i < s.len() implies touches_of(s).contains_key(
            (#[trigger] s[i]).key@,
        ) && touches_of(s)[s[i].key@] == s[i].at by {
            if i < s.len() - 1 {
                assert(s[i] == p[i]);
                assert(s[i].key@ != s.last().key@);
            }
        }
        assert forall|k: Seq<char>| touches_of(s).contains_key(k) implies exists|i: int|
            0 <= i < s.len() && (#[trigger] s[i]).key@ == k by {
            if k != s.last().key@ {
                let i = choose|i: int| 0 <= i < p.len() && (#[trigger] p[i]).key@ == k;
                assert(s[i] == p[i]);
            } else {
                assert(s[s.len() - 1].key@ == k);
            }
        }
    }
}

/// Last touch of each recently active thread.
pub struct ThreadActivity {
    ttl_ms: u64,
    entries: Vec<Touch>,
}

impl View for ThreadActivity {
    type V = Map<Seq<char>, u64>;

    closed spec fn view(&self) -> Map<Seq<char>, u64> {
        touches_of(self.entries@)
    }
}

/// Milliseconds in a minute.
pub const MS_PER_MINUTE: u64 = 60_000;

impl ThreadActivity {
    /// Each thread appears once.
    pub closed spec fn wf(&self) -> bool {
        unique(self.entries@)
    }

    /// The window length, in milliseconds.
    pub closed spec fn ttl(&self) -> u64 {
        self.ttl_ms
    }

    /// A tracker with a window of `ttl_minutes`; zero turns continuation off.
    pub fn new(ttl_minutes: u32) -> (r: Self)
        ensures
            r.wf(),
            r@ == Map::<Seq<char>, u64>::empty(),
            r.ttl() == ttl_minutes as u64 * MS_PER_MINUTE,
    {
        ThreadActivity { ttl_ms: ttl_minutes as u64 * MS_PER_MINUTE, entries: Vec::new() }
    }

    /// Whether the thread was touched within the window before `now_ms`.
    pub fn is_active(&self, thread_id: &str, now_ms: u64) -> (r: bool)
        requires
            self.wf(),
        ensures
            r == active_in(self@, thread_id@, now_ms, self.ttl()),
    {
        proof {
            lemma_touches(self.entries@);
        }
        let mut i: usize = 0;
        while i < self.entries.len()
            invariant
                unique(self.entries@),
                i <= self.entries@.len(),
                forall|j: int| 0 <= j < i ==> (#[trigger] self.entries@[j]).key@ != thread_id@,
            decreases self.entries.len() - i,
        {
            if str_eq(self.entries[i].key.as_str(), thread_id) {
                proof {
                    lemma_touches(self.entries@);
                }
                let at = self.entries[i].at;
                let age = if now_ms >= at { now_ms - at } else { 0 };
                return age < self.ttl_ms;
            }
            i = i + 1;
        }
        false
    }

    /// Records activity on a thread at `now_ms`, then drops every thread whose
    /// window has closed at `now_ms`.
    pub fn touch(&mut self, thread_id: &str, now_ms: u64)
        requires
            old(self).wf(),
        ensures
            final(self).wf(),
            final(self).ttl() == old(self).ttl(),
            final(self)@ == evict(old(self)@.insert(thread_id@, now_ms), now_ms, old(self).ttl()),
    {
        let ghost before = self@.insert(thread_id@, now_ms);
        proof {
            lemma_touches(self.entries@);
        }
        let ttl = self.ttl_ms;
        let mut kept: Vec<Touch> = Vec::new();
        let mut i: usize = 0;
        while i < self.entries.len()
            invariant
                self.entries@ == old(self).entries@,
                self.ttl_ms == ttl,
                unique(self.entries@),
                unique(kept@),
                i <= self.entries@.len(),
                forall|j: int| 0 <= j < kept@.len() ==> (#[trigger] kept@[j]).key@ != thread_id@,
                forall|k: Seq<char>|
                    touches_of(kept@).contains_key(k) <==> (exists|j: int|
                        0 <= j < i && (#[trigger] self.entries@[j]).key@ == k && k != thread_id@
                        && elapsed(now_ms, self.entries@[j].at) < ttl),
                forall|j: int|
                    0 <= j < i && (#[trigger] self.entries@[j]).key@ != thread_id@ && elapsed(
                        now_ms,
                        self.entries@[j].at,
                    ) < ttl ==> touches_of(kept@).contains_key(self.entries@[j].key@)
                        && touches_of(kept@)[self.entries@[j].key@] == self.entries@[j].at,
            decreases self.entries.len() - i,
        {
            let at = self.entries[i].at;
            let age = if now_ms >= at { now_ms - at } else { 0 };
            if age < ttl && !str_eq(self.entries[i].key.as_str(), thread_id) {
                let ghost ks = kept@;
                let key = self.entries[i].key.clone();
                kept.push(Touch { key, at });
                proof {
                    assert(kept@.drop_last() =~= ks);
                    lemma_touches(ks);
                    assert(unique(kept@)) by {
                        assert forall|a: int, b: int| 0 <= a < b < kept@.len() implies (
                        #[trigger] kept@[a]).key@ != (#[trigger] kept@[b]).key@ by {
                            if b == ks.len() {
                                assert(kept@[a] == ks[a]);
                                assert(touches_of(ks).contains_key(ks[a].key@));
                                let j = choose|j: int|
                                    0 <= j < i && (#[trigger] self.entries@[j]).key@ == ks[a].key@
                                        && ks[a].key@ != thread_id@ && elapsed(
                                        now_ms,
                                        self.entries@[j].at,
                                    ) < ttl;
                                assert(self.entries@[j].key@ != self.entries@[i as int].key@);
                            } else {
                                assert(kept@[a] == ks[a] && kept@[b] == ks[b]);
                            }
                        }
                    }
                    assert forall|j: int| 0 <= j < kept@.len() implies (#[trigger] kept@[j]).key@
                        != thread_id@ by {
                        if j < ks.len() {
                            assert(kept@[j] == ks[j]);
                        }
                    }
                    let ki = self.entries@[i as int].key@;
                    assert(touches_of(kept@) == touches_of(ks).insert(ki, at));
                    assert forall|k: Seq<char>|
                        touches_of(kept@).contains_key(k) <==> (exists|j: int|
                            0 <= j < i + 1 && (#[trigger] self.entries@[j]).key@ == k && k
                                != thread_id@ && elapsed(now_ms, self.entries@[j].at) < ttl) by {
                        if k == ki {
                            assert(self.entries@[i as int].key@ == k);
                        } else if touches_of(kept@).contains_key(k) {
                            assert(touches_of(ks).contains_key(k));
                            let j = choose|j: int|
                                0 <= j < i && (#[trigger] self.entries@[j]).key@ == k && k
                                    != thread_id@ && elapsed(now_ms, self.entries@[j].at) < ttl;
                            assert(0 <= j < i + 1);
                        } else {
                            if exists|j: int|
                                0 <= j < i + 1 && (#[trigger] self.entries@[j]).key@ == k && k
                                    != thread_id@ && elapsed(now_ms, self.entries@[j].at) < ttl {
                                let j = choose|j: int|
                                    0 <= j < i + 1 && (#[trigger] self.entries@[j]).key@ == k && k
                                        != thread_id@ && elapsed(now_ms, self.entries@[j].at) < ttl;
                                assert(j < i);
                            }
                        }
                    }
                    assert forall|j: int|
                        0 <= j < i + 1 && (#[trigger] self.entries@[j]).key@ != thread_id@ && elapsed(
                            now_ms,
                            self.entries@[j].at,
                        ) < ttl implies touches_of(kept@).contains_key(self.entries@[j].key@)
                        && touches_of(kept@)[self.entries@[j].key@] == self.entries@[j].at by {
                        if j < i {
                            assert(self.entries@[j].key@ != ki);
                        }
                    }
                }
            } else {
                proof {
                    let ki = self.entries@[i as int].key@;
                    assert(ki == thread_id@ || elapsed(now_ms, self.entries@[i as int].at) >= ttl);
                    assert forall|k: Seq<char>|
                        touches_of(kept@).contains_key(k) <==> (exists|j: int|
                            0 <= j < i + 1 && (#[trigger] self.entries@[j]).key@ == k && k
                                != thread_id@ && elapsed(now_ms, self.entries@[j].at) < ttl) by {
                        if touches_of(kept@).contains_key(k) {
                            let j = choose|j: int|
                                0 <= j < i && (#[trigger] self.entries@[j]).key@ == k && k
                                    != thread_id@ && elapsed(now_ms, self.entries@[j].at) < ttl;
                            assert(0 <= j < i + 1);
                        } else {
                            if exists|j: int|
                                0 <= j < i + 1 && (#[trigger] self.entries@[j]).key@ == k && k
                                    != thread_id@ && elapsed(now_ms, self.entries@[j].at) < ttl {
                                let j = choose|j: int|
                                    0 <= j < i + 1 && (#[trigger] self.entries@[j]).key@ == k && k
                                        != thread_id@ && elapsed(now_ms, self.entries@[j].at) < ttl;
                                assert(j < i);
                            }
                        }
                    }
                }
            }
            i = i + 1;
        }
        let ghost ks = kept@;
        let ghost olds = self.entries@;
        proof {
            lemma_touches(olds);
            lemma_touches(ks);
            assert forall|k: Seq<char>| k != thread_id@ implies (touches_of(ks).contains_key(k)
                <==> active_in(old(self)@, k, now_ms, ttl)) by {
                if active_in(old(self)@, k, now_ms, ttl) {
                    let j = choose|j: int| 0 <= j < olds.len() && (#[trigger] olds[j]).key@ == k;
                    assert(old(self)@[k] == olds[j].at);
                }
                if touches_of(ks).contains_key(k) {
                    let j = choose|j: int|
                        0 <= j < olds.len() && (#[trigger] olds[j]).key@ == k && k != thread_id@
                            && elapsed(now_ms, olds[j].at) < ttl;
                    assert(old(self)@[k] == olds[j].at);
                }
            }
            assert forall|k: Seq<char>| k != thread_id@ && #[trigger] touches_of(ks).contains_key(k)
                implies touches_of(ks)[k] == old(self)@[k] by {
                let j = choose|j: int|
                    0 <= j < olds.len() && (#[trigger] olds[j]).key@ == k && k != thread_id@
                        && elapsed(now_ms, olds[j].at) < ttl;
                assert(old(self)@[k] == olds[j].at);
            }
        }
        if 0 < ttl {
            kept.push(Touch { key: thread_id.to_owned(), at: now_ms });
            proof {
                assert(kept@.drop_last() =~= ks);
                assert(unique(kept@)) by {
                    assert forall|a: int, b: int| 0 <= a < b < kept@.len() implies (
                    #[trigger] kept@[a]).key@ != (#[trigger] kept@[b]).key@ by {
                        if b == ks.len() {
                            assert(kept@[a] == ks[a]);
                        } else {
                            assert(kept@[a] == ks[a] && kept@[b] == ks[b]);
                        }
                    }
                }
            }
        }
        proof {
            if 0 < ttl {
                assert(touches_of(kept@) == touches_of(ks).insert(thread_id@, now_ms));
            } else {
                assert(kept@ == ks);
            }
        }
        self.entries = kept;
        proof {
            let target = evict(before, now_ms, ttl);
            assert(before.contains_key(thread_id@) && before[thread_id@] == now_ms);
            assert(elapsed(now_ms, now_ms) == 0);
            assert forall|k: Seq<char>| k != thread_id@ implies (before.contains_key(k)
                == old(self)@.contains_key(k) && (old(self)@.contains_key(k) ==> before[k]
                == old(self)@[k])) by {}
            assert forall|k: Seq<char>| #[trigger] self@.contains_key(k) == target.contains_key(k) by {
                if k != thread_id@ {
                    assert(active_in(before, k, now_ms, ttl) == active_in(old(self)@, k, now_ms, ttl));
                }
            }
            assert forall|k: Seq<char>| self@.contains_key(k) implies #[trigger] self@[k] == target[k] by {
                if k != thread_id@ {
                    assert(touches_of(ks).contains_key(k));
                }
            }
            assert(self@ =~= target);
        }
    }
}

} // verus!

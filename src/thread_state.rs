//! The modes active in each thread. Modes add up: a thread in `pm` that
//! activates `devops` answers in both.
use vstd::prelude::*;
use crate::thread_table::{ThreadTable, MAX_THREADS};
use crate::text::str_eq;
use crate::text::views;

verus! {

/// The modes of a thread after `mode` is activated in it: appended unless
/// present; a new thread beyond capacity is not tracked.
pub open spec fn with_mode(
    m: Map<Seq<char>, Seq<Seq<char>>>,
    thread: Seq<char>,
    mode: Seq<char>,
) -> Map<Seq<char>, Seq<Seq<char>>> {
    if m.contains_key(thread) {
        if m[thread].contains(mode) {
            m
        } else {
            m.insert(thread, m[thread].push(mode))
        }
    } else if m.len() >= MAX_THREADS {
        m
    } else {
        m.insert(thread, seq![mode])
    }
}

spec fn modes_view(t: Map<Seq<char>, Vec<String>>) -> Map<Seq<char>, Seq<Seq<char>>> {
    Map::new(|k: Seq<char>| t.contains_key(k), |k: Seq<char>| views(t[k]@))
}

proof fn lemma_modes_view_dom(t: Map<Seq<char>, Vec<String>>)
    ensures
        modes_view(t).dom() == t.dom(),
        modes_view(t).len() == t.len(),
{
    assert(modes_view(t).dom() =~= t.dom());
}

/// The active modes of each tracked thread.
pub struct ThreadModeState {
    table: ThreadTable<Vec<String>>,
}

impl View for ThreadModeState {
    type V = Map<Seq<char>, Seq<Seq<char>>>;

    closed spec fn view(&self) -> Map<Seq<char>, Seq<Seq<char>>> {
        modes_view(self.table@)
    }
}

impl ThreadModeState {
    /// The state's invariant.
    pub closed spec fn wf(&self) -> bool {
        self.table.wf() && self.table@.dom().finite() && self.table@.len() <= MAX_THREADS
    }

    /// No thread has a mode.
    pub fn new() -> (r: Self)
        ensures
            r.wf(),
            r@ == Map::<Seq<char>, Seq<Seq<char>>>::empty(),
    {
        let r = ThreadModeState { table: ThreadTable::new() };
        assert(r@ =~= Map::<Seq<char>, Seq<Seq<char>>>::empty());
        r
    }

    /// The modes active in a thread, in activation order; none for an unknown thread.
    pub fn get_modes(&self, thread_ts: &str) -> (r: Vec<String>)
        requires
            self.wf(),
        ensures
            views(r@) == (if self@.contains_key(thread_ts@) {
                self@[thread_ts@]
            } else {
                Seq::<Seq<char>>::empty()
            }),
    {
        match self.table.get(thread_ts) {
            Some(v) => {
                let r = v.clone();
                proof {
                    assert(r@ == v@);
                }
                r
            },
            None => {
                let r: Vec<String> = Vec::new();
                assert(views(r@) =~= Seq::<Seq<char>>::empty());
                r
            },
        }
    }

    /// Activates a mode in a thread; nothing changes if it is already active, or
    /// if the thread is new and `MAX_THREADS` threads are tracked.
    pub fn add_mode(&mut self, thread_ts: &str, mode_name: String)
        requires
            old(self).wf(),
        ensures
            final(self).wf(),
            final(self)@ == with_mode(old(self)@, thread_ts@, mode_name@),
    {
        let ghost before = self.table@;
        let ghost t = thread_ts@;
        proof {
            lemma_modes_view_dom(before);
        }
        match self.table.take(thread_ts) {
            Some(mut modes) => {
                let mut present = false;
                let mut i: usize = 0;
                while i < modes.len()
                    invariant
                        i <= modes@.len(),
                        present <==> exists|j: int| 0 <= j < i && (#[trigger] modes@[j])@ == mode_name@,
                    decreases modes.len() - i,
                {
                    if str_eq(modes[i].as_str(), mode_name.as_str()) {
                        present = true;
                    }
                    i = i + 1;
                }
                let ghost old_modes = modes@;
                proof {
                    assert(old_modes == before[t]@);
                    if views(old_modes).contains(mode_name@) {
                        let j = choose|j: int| 0 <= j < views(old_modes).len() && views(old_modes)[j] == mode_name@;
                        assert(old_modes[j]@ == mode_name@);
                    }
                    if present {
                        let j = choose|j: int| 0 <= j < i && (#[trigger] modes@[j])@ == mode_name@;
                        assert(views(old_modes)[j] == mode_name@);
                    }
                }
                if !present {
                    modes.push(mode_name);
                    proof {
                        assert(views(modes@) =~= views(old_modes).push(mode_name@));
                    }
                }
                let ghost new_modes = modes;
                proof {
                    before.lemma_remove_key_len(t);
                    assert(before.remove(t).remove(t) =~= before.remove(t));
                }
                let _ = self.table.reset(thread_ts, modes);
                proof {
                    assert(self.table@ == before.remove(t).insert(t, new_modes));
                    lemma_modes_view_dom(self.table@);
                    if present {
                        assert(modes_view(self.table@) =~= modes_view(before));
                    } else {
                        assert(modes_view(self.table@) =~= modes_view(before).insert(t, views(old_modes).push(mode_name@)));
                    }
                }
            },
            None => {
                let mut modes: Vec<String> = Vec::new();
                let ghost name = mode_name@;
                modes.push(mode_name);
                let ghost new_modes = modes;
                proof {
                    assert(before.remove(t) =~= before);
                    assert(views(modes@) =~= seq![name]);
                }
                let _ = self.table.reset(thread_ts, modes);
                proof {
                    lemma_modes_view_dom(self.table@);
                    if before.len() >= MAX_THREADS {
                        assert(modes_view(self.table@) =~= modes_view(before));
                    } else {
                        assert(self.table@ == before.insert(t, new_modes));
                        assert(modes_view(self.table@) =~= modes_view(before).insert(t, seq![name]));
                    }
                }
            },
        }
    }

    /// Forgets the modes of a thread.
    pub fn clear_mode(&mut self, thread_ts: &str)
        requires
            old(self).wf(),
        ensures
            final(self).wf(),
            final(self)@ == old(self)@.remove(thread_ts@),
    {
        let _ = self.table.take(thread_ts);
        proof {
            if old(self).table@.contains_key(thread_ts@) {
                old(self).table@.lemma_remove_key_len(thread_ts@);
            } else {
                assert(self.table@ =~= old(self).table@);
            }
        }
        assert(self@ =~= old(self)@.remove(thread_ts@));
    }

    /// How many threads have modes.
    pub fn active_count(&self) -> (r: usize)
        requires
            self.wf(),
        ensures
            r == self@.len(),
    {
        proof {
            lemma_modes_view_dom(self.table@);
        }
        self.table.len()
    }
}

} // verus!

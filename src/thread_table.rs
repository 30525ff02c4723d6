//! A table with one value per thread key, capped at `MAX_THREADS` threads.
//!
//! It holds the inactivity timer handles (the table decides, the caller owns the
//! tasks and aborts every handle the table hands back) and the modes of threads.
use vstd::prelude::*;
use crate::text::str_eq;

verus! {

/// Most threads a table holds.
pub const MAX_THREADS: usize = 10_000;

struct ThreadEntry<H> {
    key: String,
    handle: H,
}

spec fn table_of<H>(s: Seq<ThreadEntry<H>>) -> Map<Seq<char>, H>
    decreases s.len(),
{
    if s.len() == 0 {
        Map::empty()
    } else {
        table_of(s.drop_last()).insert(s.last().key@, s.last().handle)
    }
}

spec fn distinct_keys<H>(s: Seq<ThreadEntry<H>>) -> bool {
    forall|i: int, j: int| 0 <= i < j < s.len() ==> (#[trigger] s[i]).key@ != (#[trigger] s[j]).key@
}

proof fn lemma_table_of<H>(s: Seq<ThreadEntry<H>>)
    requires
        distinct_keys(s),
    ensures
        table_of(s).dom().finite(),
        table_of(s).len() == s.len(),
        forall|i: int|
            0 <= i < s.len() ==> table_of(s).contains_key((#[trigger] s[i]).key@) && table_of(s)[s[i].key@]
                == s[i].handle,
        forall|k: Seq<char>|
            table_of(s).contains_key(k) ==> exists|i: int| 0 <= i < s.len() && (#[trigger] s[i]).key@ == k,
    decreases s.len(),
{
    if s.len() > 0 {
        let p = s.drop_last();
        assert(distinct_keys(p)) by {
            assert forall|i: int, j: int| 0 <= i < j < p.len() implies (#[trigger] p[i]).key@
                != (#[trigger] p[j]).key@ by {
                assert(p[i] == s[i] && p[j] == s[j]);
            }
        }
        lemma_table_of(p);
        if table_of(p).contains_key(s.last().key@) {
            let i = choose|i: int| 0 <= i < p.len() && (#[trigger] p[i]).key@ == s.last().key@;
            assert(s[i] == p[i]);
            assert(false);
        }
        assert forall|i: int| 0 <= i < s.len() implies table_of(s).contains_key(
            (#[trigger] s[i]).key@,
        ) && table_of(s)[s[i].key@] == s[i].handle by {
            if i < s.len() - 1 {
                assert(s[i] == p[i]);
            }
        }
        assert forall|k: Seq<char>| table_of(s).contains_key(k) implies exists|i: int|
            0 <= i < s.len() && (#[trigger] s[i]).key@ == k by {
            if k != s.last().key@ {
                let i = choose|i: int| 0 <= i < p.len() && (#[trigger] p[i]).key@ == k;
                assert(s[i] == p[i]);
            } else {
                assert(s[s.len() - 1].key@ == k);
            }
        }
    }
}

proof fn lemma_table_remove<H>(s: Seq<ThreadEntry<H>>, i: int)
    requires
        distinct_keys(s),
        0 <= i < s.len(),
    ensures
        distinct_keys(s.remove(i)),
        table_of(s.remove(i)) == table_of(s).remove(s[i].key@),
    decreases s.len(),
{
    let t = s.remove(i);
    assert(distinct_keys(t)) by {
        assert forall|a: int, b: int| 0 <= a < b < t.len() implies (#[trigger] t[a]).key@
            != (#[trigger] t[b]).key@ by {
            let a2 = if a < i { a } else { a + 1 };
            let b2 = if b < i { b } else { b + 1 };
            assert(t[a] == s[a2] && t[b] == s[b2]);
        }
    }
    let p = s.drop_last();
    assert(distinct_keys(p)) by {
        assert forall|a: int, b: int| 0 <= a < b < p.len() implies (#[trigger] p[a]).key@
            != (#[trigger] p[b]).key@ by {
            assert(p[a] == s[a] && p[b] == s[b]);
        }
    }
    lemma_table_of(s);
    lemma_table_of(p);
    if i == s.len() - 1 {
        assert(t =~= p);
        assert(!table_of(p).contains_key(s[i].key@)) by {
            if table_of(p).contains_key(s[i].key@) {
                let j = choose|j: int| 0 <= j < p.len() && (#[trigger] p[j]).key@ == s[i].key@;
                assert(s[j] == p[j]);
            }
        }
        assert(table_of(t) =~= table_of(s).remove(s[i].key@));
    } else {
        lemma_table_remove(p, i);
        assert(t.drop_last() =~= p.remove(i));
        assert(t.last() == s.last());
        assert(s[i].key@ != s.last().key@);
        assert(p[i] == s[i]);
        assert(table_of(t) =~= table_of(s).remove(s[i].key@));
    }
}

/// One value per thread key, at most `MAX_THREADS` of them.
pub struct ThreadTable<H> {
    entries: Vec<ThreadEntry<H>>,
}

impl<H> View for ThreadTable<H> {
    type V = Map<Seq<char>, H>;

    closed spec fn view(&self) -> Map<Seq<char>, H> {
        table_of(self.entries@)
    }
}

/// The table after `key` is given `handle`: its old value is gone, and the new
/// one is kept unless the table is full.
pub open spec fn after_reset<H>(m: Map<Seq<char>, H>, key: Seq<char>, handle: H) -> Map<Seq<char>, H> {
    if m.remove(key).len() >= MAX_THREADS {
        m.remove(key)
    } else {
        m.remove(key).insert(key, handle)
    }
}

impl<H> ThreadTable<H> {
    /// Each thread key appears once.
    pub closed spec fn wf(&self) -> bool {
        distinct_keys(self.entries@)
    }

    /// An empty table.
    pub fn new() -> (r: Self)
        ensures
            r.wf(),
            r@ == Map::<Seq<char>, H>::empty(),
    {
        ThreadTable { entries: Vec::new() }
    }

    /// How many threads the table holds.
    pub fn len(&self) -> (r: usize)
        requires
            self.wf(),
        ensures
            r == self@.len(),
    {
        proof {
            lemma_table_of(self.entries@);
        }
        self.entries.len()
    }

    /// Whether the table holds `key`.
    pub fn contains(&self, key: &str) -> (r: bool)
        requires
            self.wf(),
        ensures
            r == self@.contains_key(key@),
    {
        proof {
            lemma_table_of(self.entries@);
        }
        let mut i: usize = 0;
        while i < self.entries.len()
            invariant
                distinct_keys(self.entries@),
                i <= self.entries@.len(),
                forall|j: int| 0 <= j < i ==> (#[trigger] self.entries@[j]).key@ != key@,
            decreases self.entries.len() - i,
        {
            if str_eq(self.entries[i].key.as_str(), key) {
                proof {
                    lemma_table_of(self.entries@);
                    assert(self.entries@[i as int].key@ == key@);
                }
                return true;
            }
            i = i + 1;
        }
        false
    }

    /// The value of `key`, if the table holds it.
    pub fn get(&self, key: &str) -> (r: Option<&H>)
        requires
            self.wf(),
        ensures
            r matches Some(h) ==> self@.contains_key(key@) && *h == self@[key@],
            r is None ==> !self@.contains_key(key@),
    {
        proof {
            lemma_table_of(self.entries@);
        }
        let mut i: usize = 0;
        while i < self.entries.len()
            invariant
                distinct_keys(self.entries@),
                i <= self.entries@.len(),
                forall|j: int| 0 <= j < i ==> (#[trigger] self.entries@[j]).key@ != key@,
            decreases self.entries.len() - i,
        {
            if str_eq(self.entries[i].key.as_str(), key) {
                proof {
                    lemma_table_of(self.entries@);
                }
                return Some(&self.entries[i].handle);
            }
            i = i + 1;
        }
        proof {
            lemma_table_of(self.entries@);
            if self@.contains_key(key@) {
                let j = choose|j: int|
                    0 <= j < self.entries@.len() && (#[trigger] self.entries@[j]).key@ == key@;
                assert(self.entries@[j].key@ != key@);
            }
        }
        None
    }

    /// Removes the value of `key` and hands it back.
    pub fn take(&mut self, key: &str) -> (r: Option<H>)
        requires
            old(self).wf(),
        ensures
            final(self).wf(),
            final(self)@ == old(self)@.remove(key@),
            r == (if old(self)@.contains_key(key@) { Some(old(self)@[key@]) } else { None::<H> }),
    {
        proof {
            lemma_table_of(self.entries@);
        }
        let mut i: usize = 0;
        while i < self.entries.len()
            invariant
                self.entries@ == old(self).entries@,
                distinct_keys(self.entries@),
                i <= self.entries@.len(),
                forall|j: int| 0 <= j < i ==> (#[trigger] self.entries@[j]).key@ != key@,
            decreases self.entries.len() - i,
        {
            if str_eq(self.entries[i].key.as_str(), key) {
                let ghost s = self.entries@;
                let e = self.entries.remove(i);
                proof {
                    lemma_table_remove(s, i as int);
                    lemma_table_of(s);
                }
                return Some(e.handle);
            }
            i = i + 1;
        }
        proof {
            lemma_table_of(self.entries@);
            assert(!self@.contains_key(key@)) by {
                if self@.contains_key(key@) {
                    let j = choose|j: int|
                        0 <= j < self.entries@.len() && (#[trigger] self.entries@[j]).key@ == key@;
                    assert(self.entries@[j].key@ != key@);
                }
            }
            assert(self@.remove(key@) =~= self@);
        }
        None
    }

    /// Replaces the value of `key` with `handle`. Hands back the value it
    /// replaced, and `handle` itself when the table is full.
    pub fn reset(&mut self, key: &str, handle: H) -> (r: (Option<H>, Option<H>))
        requires
            old(self).wf(),
        ensures
            final(self).wf(),
            r.0 == (if old(self)@.contains_key(key@) { Some(old(self)@[key@]) } else { None::<H> }),
            final(self)@ == after_reset(old(self)@, key@, handle),
            r.1 == (if old(self)@.remove(key@).len() >= MAX_THREADS { Some(handle) } else { None::<H> }),
    {
        let previous = self.take(key);
        proof {
            lemma_table_of(self.entries@);
        }
        if self.entries.len() >= MAX_THREADS {
            return (previous, Some(handle));
        }
        let ghost s = self.entries@;
        self.entries.push(ThreadEntry { key: key.to_owned(), handle });
        proof {
            assert(self.entries@.drop_last() =~= s);
            assert(distinct_keys(self.entries@)) by {
                assert forall|a: int, b: int|
                    0 <= a < b < self.entries@.len() implies (#[trigger] self.entries@[a]).key@
                    != (#[trigger] self.entries@[b]).key@ by {
                    if b == s.len() {
                        assert(self.entries@[a] == s[a]);
                        assert(table_of(s).contains_key(s[a].key@));
                    } else {
                        assert(self.entries@[a] == s[a] && self.entries@[b] == s[b]);
                    }
                }
            }
        }
        (previous, None)
    }

    /// Empties the table and hands back every value.
    pub fn drain(&mut self) -> (r: Vec<H>)
        requires
            old(self).wf(),
        ensures
            final(self).wf(),
            final(self)@ == Map::<Seq<char>, H>::empty(),
            r@.len() == old(self)@.len(),
    {
        proof {
            lemma_table_of(self.entries@);
        }
        let n = self.entries.len();
        let mut r: Vec<H> = Vec::new();
        while self.entries.len() > 0
            invariant
                distinct_keys(self.entries@),
                r@.len() + self.entries@.len() == n,
            decreases self.entries.len(),
        {
            let ghost s = self.entries@;
            let e = self.entries.pop().unwrap();
            proof {
                assert(self.entries@ =~= s.drop_last());
                assert(distinct_keys(self.entries@)) by {
                    assert forall|a: int, b: int|
                        0 <= a < b < self.entries@.len() implies (#[trigger] self.entries@[a]).key@
                        != (#[trigger] self.entries@[b]).key@ by {
                        assert(self.entries@[a] == s[a] && self.entries@[b] == s[b]);
                    }
                }
            }
            r.push(e.handle);
        }
        proof {
            assert(self.entries@ =~= Seq::<ThreadEntry<H>>::empty());
            assert(self@ =~= Map::<Seq<char>, H>::empty());
        }
        r
    }
}

} // verus!

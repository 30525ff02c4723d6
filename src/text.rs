use vstd::prelude::*;
use vstd::string::StringSliceAdditionalSpecFns;
use vstd::utf8::{encode_utf8, encode_utf8_decode_utf8};

verus! {

/// Whether `c` has the Unicode `White_Space` property, as `char::is_whitespace` tests.
pub open spec fn is_ws(c: char) -> bool {
    ('\t' <= c && c <= '\r') || c == ' ' || c == '\u{85}' || c == '\u{a0}' || c == '\u{1680}'
        || ('\u{2000}' <= c && c <= '\u{200a}') || c == '\u{2028}' || c == '\u{2029}'
        || c == '\u{202f}' || c == '\u{205f}' || c == '\u{3000}'
}

pub fn is_whitespace(c: char) -> (r: bool)
    ensures
        r == is_ws(c),
{
    ('\t' <= c && c <= '\r') || c == ' ' || c == '\u{85}' || c == '\u{a0}' || c == '\u{1680}'
        || ('\u{2000}' <= c && c <= '\u{200a}') || c == '\u{2028}' || c == '\u{2029}'
        || c == '\u{202f}' || c == '\u{205f}' || c == '\u{3000}'
}

/// Number of leading whitespace characters of `s`.
pub open spec fn lead_ws(s: Seq<char>) -> nat
    decreases s.len(),
{
    if s.len() > 0 && is_ws(s[0]) {
        1 + lead_ws(s.drop_first())
    } else {
        0
    }
}

/// Number of trailing whitespace characters of `s`.
pub open spec fn trail_ws(s: Seq<char>) -> nat
    decreases s.len(),
{
    if s.len() > 0 && is_ws(s.last()) {
        1 + trail_ws(s.drop_last())
    } else {
        0
    }
}

/// `s` without leading whitespace.
pub open spec fn trim_start(s: Seq<char>) -> Seq<char> {
    s.skip(lead_ws(s) as int)
}

/// `s` without trailing whitespace.
pub open spec fn trim_end(s: Seq<char>) -> Seq<char> {
    s.take(s.len() - trail_ws(s))
}

/// `s` without leading or trailing whitespace.
pub open spec fn trim(s: Seq<char>) -> Seq<char> {
    trim_end(trim_start(s))
}

/// ASCII lower case of a character; other characters are kept.
pub open spec fn lower(c: char) -> char {
    if 'A' <= c && c <= 'Z' {
        ((c as u8) + 32) as char
    } else {
        c
    }
}

pub fn to_lower(c: char) -> (r: char)
    ensures
        r == lower(c),
{
    if 'A' <= c && c <= 'Z' {
        ((c as u8) + 32) as char
    } else {
        c
    }
}

/// Relies on `String::push`: appends one character.
#[verifier::external_body]
pub(crate) fn push_char(s: &mut String, c: char)
    ensures
        final(s)@ == old(s)@.push(c),
{
    s.push(c)
}

/// The characters of `s`, in order.
pub fn chars_of(s: &str) -> (r: Vec<char>)
    ensures
        r@ == s@,
{
    let mut r: Vec<char> = Vec::new();
    for c in it: s.chars()
        invariant
            r@ == it.seq().take(it.index() as int),
    {
        r.push(c);
    }
    r
}

/// A string that holds `cs[lo..hi]`.
pub fn string_of(cs: &Vec<char>, lo: usize, hi: usize) -> (r: String)
    requires
        lo <= hi <= cs.len(),
    ensures
        r@ == cs@.subrange(lo as int, hi as int),
{
    let mut r = String::new();
    let mut i: usize = lo;
    while i < hi
        invariant
            lo <= i <= hi <= cs.len(),
            r@ == cs@.subrange(lo as int, i as int),
        decreases hi - i,
    {
        push_char(&mut r, cs[i]);
        i = i + 1;
    }
    r
}

/// Appends all characters of `t` to `s`.
pub fn push_str(s: &mut String, t: &str)
    ensures
        final(s)@ == old(s)@ + t@,
{
    let cs = chars_of(t);
    let mut i: usize = 0;
    while i < cs.len()
        invariant
            i <= cs.len(),
            cs@ == t@,
            s@ == old(s)@ + t@.take(i as int),
        decreases cs.len() - i,
    {
        push_char(s, cs[i]);
        i = i + 1;
    }
}

/// The bounds `(lo, hi)` of `cs` without leading and trailing whitespace.
pub fn trim_bounds(cs: &Vec<char>) -> (r: (usize, usize))
    ensures
        r.0 <= r.1 <= cs.len(),
        cs@.subrange(r.0 as int, r.1 as int) == trim(cs@),
{
    let mut lo: usize = 0;
    while lo < cs.len() && is_whitespace(cs[lo])
        invariant
            lo <= cs.len(),
            forall|i: int| 0 <= i < lo ==> is_ws(#[trigger] cs@[i]),
        decreases cs.len() - lo,
    {
        lo = lo + 1;
    }
    proof {
        lemma_lead_exact(cs@, lo as int);
    }
    let mut hi: usize = cs.len();
    while hi > lo && is_whitespace(cs[hi - 1])
        invariant
            lo <= hi <= cs.len(),
            forall|i: int| hi <= i < cs.len() ==> is_ws(#[trigger] cs@[i]),
        decreases hi,
    {
        hi = hi - 1;
    }
    proof {
        let t = cs@.skip(lo as int);
        assert forall|i: int| hi - lo <= i < t.len() implies is_ws(#[trigger] t[i]) by {
            assert(t[i] == cs@[lo + i]);
        }
        lemma_trail_exact(t, hi - lo);
        assert(cs@.subrange(lo as int, hi as int) =~= t.take(hi - lo));
    }
    (lo, hi)
}

proof fn lemma_lead_exact(s: Seq<char>, n: int)
    requires
        0 <= n <= s.len(),
        forall|i: int| 0 <= i < n ==> is_ws(#[trigger] s[i]),
        n == s.len() || !is_ws(s[n]),
    ensures
        lead_ws(s) == n,
    decreases n,
{
    if n > 0 {
        let t = s.drop_first();
        assert forall|i: int| 0 <= i < n - 1 implies is_ws(#[trigger] t[i]) by {
            assert(t[i] == s[i + 1]);
        }
        if n < s.len() {
            assert(t[n - 1] == s[n]);
        }
        lemma_lead_exact(t, n - 1);
    }
}

proof fn lemma_trail_exact(s: Seq<char>, n: int)
    requires
        0 <= n <= s.len(),
        forall|i: int| n <= i < s.len() ==> is_ws(#[trigger] s[i]),
        n == 0 || !is_ws(s[n - 1]),
    ensures
        s.len() - trail_ws(s) == n,
    decreases s.len() - n,
{
    if n < s.len() {
        let t = s.drop_last();
        assert forall|i: int| n <= i < t.len() implies is_ws(#[trigger] t[i]) by {
            assert(t[i] == s[i]);
        }
        if n > 0 {
            assert(t[n - 1] == s[n - 1]);
        }
        lemma_trail_exact(t, n);
    }
}

/// Whether `a` and `b` hold the same characters (compared byte by byte).
pub fn str_eq(a: &str, b: &str) -> (r: bool)
    ensures
        r == (a@ == b@),
{
    let x = a.as_bytes();
    let y = b.as_bytes();
    if x.len() != y.len() {
        return false;
    }
    let mut i: usize = 0;
    while i < x.len()
        invariant
            x@ == a.spec_bytes(),
            y@ == b.spec_bytes(),
            x.len() == y.len(),
            i <= x.len(),
            forall|j: int| 0 <= j < i ==> x@[j] == y@[j],
        decreases x.len() - i,
    {
        if x[i] != y[i] {
            return false;
        }
        i = i + 1;
    }
    proof {
        assert(x@ =~= y@);
        encode_utf8_decode_utf8(a@);
        encode_utf8_decode_utf8(b@);
    }
    true
}

/// The Unicode lower case of a string, as `str::to_lowercase` gives it.
pub uninterp spec fn lower_of(s: Seq<char>) -> Seq<char>;

/// Relies on `str::to_lowercase`: the result depends on the characters alone.
#[verifier::external_body]
pub(crate) fn to_lowercase(s: &str) -> (r: String)
    ensures
        r@ == lower_of(s@),
{
    s.to_lowercase()
}

/// The least `k` in `0..n` with `p(k)`, or `n` when there is none.
pub open spec fn first_where(n: int, p: spec_fn(int) -> bool) -> int
    decreases n,
{
    if n <= 0 {
        0
    } else if first_where(n - 1, p) < n - 1 {
        first_where(n - 1, p)
    } else if p(n - 1) {
        n - 1
    } else {
        n
    }
}

pub proof fn lemma_first_where(n: int, p: spec_fn(int) -> bool, i: int)
    requires
        0 <= i <= n,
        forall|j: int| 0 <= j < i ==> !#[trigger] p(j),
        i == n || p(i),
    ensures
        first_where(n, p) == i,
    decreases n,
{
    if n > 0 {
        if i == n {
            lemma_first_where(n - 1, p, n - 1);
        } else if i == n - 1 {
            lemma_first_where(n - 1, p, n - 1);
        } else {
            lemma_first_where(n - 1, p, i);
        }
    }
}

/// Positions where `s` holds `c`.
pub open spec fn at_char(s: Seq<char>, c: char) -> spec_fn(int) -> bool {
    |k: int| s[k] == c
}

pub proof fn lemma_first_where_holds(n: int, p: spec_fn(int) -> bool)
    requires
        first_where(n, p) < n,
    ensures
        p(first_where(n, p)),
        0 <= first_where(n, p),
    decreases n,
{
    if n > 0 && first_where(n - 1, p) < n - 1 {
        lemma_first_where_holds(n - 1, p);
    }
}

pub proof fn lemma_first_where_none(n: int, p: spec_fn(int) -> bool)
    requires
        n >= 0,
        first_where(n, p) >= n,
    ensures
        forall|j: int| 0 <= j < n ==> !#[trigger] p(j),
    decreases n,
{
    if n > 0 {
        if first_where(n - 1, p) < n - 1 {
            lemma_first_where_bound(n - 1, p);
        }
        lemma_first_where_none(n - 1, p);
    }
}

pub proof fn lemma_first_where_bound(n: int, p: spec_fn(int) -> bool)
    ensures
        first_where(n, p) <= if n < 0 { 0 } else { n },
    decreases n,
{
    if n > 0 {
        lemma_first_where_bound(n - 1, p);
    }
}

/// A vector holding `cs[lo..hi]`.
pub fn sub_chars(cs: &Vec<char>, lo: usize, hi: usize) -> (r: Vec<char>)
    requires
        lo <= hi <= cs.len(),
    ensures
        r@ == cs@.subrange(lo as int, hi as int),
{
    let mut r: Vec<char> = Vec::new();
    let mut i: usize = lo;
    while i < hi
        invariant
            lo <= i <= hi <= cs.len(),
            r@ == cs@.subrange(lo as int, i as int),
        decreases hi - i,
    {
        r.push(cs[i]);
        i = i + 1;
    }
    r
}

/// Byte-wise lexicographic order, as `String`'s `Ord` compares.
pub open spec fn bytes_le(a: Seq<u8>, b: Seq<u8>) -> bool
    decreases a.len(),
{
    if a.len() == 0 {
        true
    } else if b.len() == 0 {
        false
    } else if a[0] < b[0] {
        true
    } else if a[0] > b[0] {
        false
    } else {
        bytes_le(a.skip(1), b.skip(1))
    }
}

/// The characters of each string.
pub open spec fn views(s: Seq<String>) -> Seq<Seq<char>> {
    s.map_values(|x: String| x@)
}

/// Relies on `slice::sort` for `String`: the same strings, in ascending order of
/// their bytes.
#[verifier::external_body]
pub(crate) fn sort_strings(v: &mut Vec<String>)
    ensures
        views(final(v)@).to_multiset() == views(old(v)@).to_multiset(),
        forall|i: int, j: int|
            0 <= i < j < final(v)@.len() ==> bytes_le(
                encode_utf8(#[trigger] final(v)@[i]@),
                encode_utf8(#[trigger] final(v)@[j]@),
            ),
{
    v.sort()
}

/// The strings of a sorted list, each once, in order.
pub fn dedup_in_order(v: &Vec<String>) -> (r: Vec<String>)
    requires
        forall|i: int, j: int|
            0 <= i < j < v@.len() ==> bytes_le(
                encode_utf8(#[trigger] v@[i]@),
                encode_utf8(#[trigger] v@[j]@),
            ),
    ensures
        views(r@).to_set() == views(v@).to_set(),
        views(r@).no_duplicates(),
        forall|i: int, j: int|
            0 <= i < j < r@.len() ==> bytes_le(
                encode_utf8(#[trigger] r@[i]@),
                encode_utf8(#[trigger] r@[j]@),
            ),
{
    let mut r: Vec<String> = Vec::new();
    let ghost mut picked: Seq<int> = Seq::empty();
    let mut p: usize = 0;
    while p < v.len()
        invariant
            p <= v@.len(),
            picked.len() == r@.len(),
            forall|a: int, b: int|
                0 <= a < b < picked.len() ==> 0 <= #[trigger] picked[a] < #[trigger] picked[b] < p,
            forall|a: int| 0 <= a < picked.len() ==> 0 <= #[trigger] picked[a] < p,
            forall|a: int| 0 <= a < r@.len() ==> #[trigger] r@[a] == v@[picked[a]],
            forall|i: int, j: int|
                0 <= i < j < v@.len() ==> bytes_le(
                    encode_utf8(#[trigger] v@[i]@),
                    encode_utf8(#[trigger] v@[j]@),
                ),
            views(r@).no_duplicates(),
            views(r@).to_set() == views(v@.take(p as int)).to_set(),
        decreases v.len() - p,
    {
        let mut seen = false;
        let mut a: usize = 0;
        while a < r.len()
            invariant
                a <= r@.len(),
                p < v@.len(),
                seen ==> views(r@).contains(v@[p as int]@),
                !seen ==> forall|b: int| 0 <= b < a ==> (#[trigger] r@[b])@ != v@[p as int]@,
            decreases r.len() - a,
        {
            if str_eq(r[a].as_str(), v[p].as_str()) {
                assert(views(r@)[a as int] == v@[p as int]@);
                seen = true;
            }
            a = a + 1;
        }
        let ghost before = r@;
        proof {
            assert(views(v@.take(p + 1)) =~= views(v@.take(p as int)).push(v@[p as int]@));
        }
        if !seen {
            r.push(v[p].clone());
            proof {
                picked = picked.push(p as int);
                assert(views(r@) =~= views(before).push(v@[p as int]@));
                assert(!views(before).contains(v@[p as int]@)) by {
                    if views(before).contains(v@[p as int]@) {
                        let b = choose|b: int| 0 <= b < views(before).len() && views(before)[b] == v@[p as int]@;
                        assert(before[b]@ == v@[p as int]@);
                    }
                }
                views(before).lemma_push_to_set_commute(v@[p as int]@);
                views(v@.take(p as int)).lemma_push_to_set_commute(v@[p as int]@);
                assert forall|c: int| 0 <= c < r@.len() implies #[trigger] r@[c] == v@[picked[c]] by {
                    if c < before.len() {
                        assert(r@[c] == before[c]);
                    }
                }
            }
        } else {
            proof {
                views(v@.take(p as int)).lemma_push_to_set_commute(v@[p as int]@);
                assert(views(r@).to_set().contains(v@[p as int]@));
                assert(views(r@).to_set() =~= views(r@).to_set().insert(v@[p as int]@));
            }
        }
        p = p + 1;
    }
    proof {
        assert(v@.take(v@.len() as int) =~= v@);
        assert forall|i: int, j: int| 0 <= i < j < r@.len() implies bytes_le(
            encode_utf8(#[trigger] r@[i]@),
            encode_utf8(#[trigger] r@[j]@),
        ) by {
            assert(picked[i] < picked[j]);
            assert(r@[i] == v@[picked[i]] && r@[j] == v@[picked[j]]);
        }
    }
    r
}

/// Sequences with the same elements counted with multiplicity have the same set
/// of elements.
pub proof fn lemma_same_multiset_same_set(a: Seq<Seq<char>>, b: Seq<Seq<char>>)
    requires
        a.to_multiset() == b.to_multiset(),
    ensures
        a.to_set() == b.to_set(),
{
    a.to_multiset_ensures();
    b.to_multiset_ensures();
    assert forall|x: Seq<char>| a.to_set().contains(x) == b.to_set().contains(x) by {
        assert(a.contains(x) == (a.to_multiset().count(x) > 0));
        assert(b.contains(x) == (b.to_multiset().count(x) > 0));
    }
    assert(a.to_set() =~= b.to_set());
}

} // verus!

use vstd::prelude::*;
use vstd::utf8::{encode_utf8, encode_scalar, char_is_scalar};
use crate::text::{chars_of, lower, to_lower, trim, trim_bounds, string_of, str_eq};

verus! {

/// Characters that may continue a Mattermost username.
pub open spec fn is_name_char(c: char) -> bool {
    ('a' <= c && c <= 'z') || ('A' <= c && c <= 'Z') || ('0' <= c && c <= '9') || c == '_'
        || c == '-' || c == '.'
}

/// Whether `@u` starts at character `k` of `t` (ASCII case ignored) and is not
/// followed by a username character.
pub open spec fn mention_at(t: Seq<char>, u: Seq<char>, k: int) -> bool {
    &&& 0 <= k
    &&& k + 1 + u.len() <= t.len()
    &&& t[k] == '@'
    &&& forall|j: int| 0 <= j < u.len() ==> lower(#[trigger] t[k + 1 + j]) == lower(u[j])
    &&& (k + 1 + u.len() == t.len() || !is_name_char(t[k + 1 + u.len()]))
}

/// Character positions of the non-overlapping mentions of `@u` in `t` found by a
/// left-to-right scan from position `k`.
pub open spec fn mention_starts(t: Seq<char>, u: Seq<char>, k: int) -> Seq<int>
    decreases t.len() - k,
{
    if u.len() == 0 || k < 0 || k + 1 + u.len() > t.len() {
        Seq::empty()
    } else if mention_at(t, u, k) {
        seq![k] + mention_starts(t, u, k + 1 + u.len())
    } else {
        mention_starts(t, u, k + 1)
    }
}

/// `t` from position `k` on, with every mention found by the scan replaced by one space.
pub open spec fn strip_from(t: Seq<char>, u: Seq<char>, k: int) -> Seq<char>
    decreases t.len() - k,
{
    if k < 0 || k >= t.len() {
        Seq::empty()
    } else if u.len() == 0 || k + 1 + u.len() > t.len() {
        t.subrange(k, t.len() as int)
    } else if mention_at(t, u, k) {
        seq![' '] + strip_from(t, u, k + 1 + u.len())
    } else {
        seq![t[k]] + strip_from(t, u, k + 1)
    }
}

/// Whether `ids` holds `id`.
pub open spec fn holds_id(ids: Seq<String>, id: Seq<char>) -> bool {
    exists|i: int| 0 <= i < ids.len() && (#[trigger] ids[i])@ == id
}

/// Whether a post's mention metadata names the bot; an empty bot id names nobody.
pub open spec fn metadata_names_bot(ids: Seq<String>, bot_user_id: Seq<char>) -> bool {
    bot_user_id.len() > 0 && holds_id(ids, bot_user_id)
}

/// Whether the text mentions `@u` or the metadata names the bot.
pub open spec fn mentions_bot(
    t: Seq<char>,
    bot_user_id: Seq<char>,
    u: Seq<char>,
    ids: Seq<String>,
) -> bool {
    mention_starts(t, u, 0).len() > 0 || metadata_names_bot(ids, bot_user_id)
}

/// What remains of a message once the mentions of the bot are stripped and the
/// ends trimmed; `None` when the bot is not mentioned or nothing remains.
pub open spec fn normalized(
    t: Seq<char>,
    bot_user_id: Seq<char>,
    u: Seq<char>,
    ids: Seq<String>,
) -> Option<Seq<char>> {
    if !mentions_bot(t, bot_user_id, u, ids) {
        None
    } else {
        let cleaned = if mention_starts(t, u, 0).len() > 0 { strip_from(t, u, 0) } else { t };
        if trim(cleaned).len() == 0 {
            None
        } else {
            Some(trim(cleaned))
        }
    }
}

/// Byte offset in the UTF-8 encoding of `t` of its character `k`.
pub open spec fn byte_offset(t: Seq<char>, k: int) -> nat {
    encode_utf8(t.take(k)).len()
}

pub fn is_mattermost_username_char(c: char) -> (r: bool)
    ensures
        r == is_name_char(c),
{
    ('a' <= c && c <= 'z') || ('A' <= c && c <= 'Z') || ('0' <= c && c <= '9') || c == '_'
        || c == '-' || c == '.'
}

fn mention_at_exec(t: &Vec<char>, u: &Vec<char>, k: usize) -> (r: bool)
    ensures
        r == mention_at(t@, u@, k as int),
{
    if k >= t.len() || u.len() >= t.len() - k {
        return false;
    }
    if t[k] != '@' {
        return false;
    }
    let mut j: usize = 0;
    while j < u.len()
        invariant
            k + 1 + u.len() <= t.len(),
            j <= u.len(),
            forall|i: int| 0 <= i < j ==> lower(#[trigger] t@[k + 1 + i]) == lower(u@[i]),
        decreases u.len() - j,
    {
        if to_lower(t[k + 1 + j]) != to_lower(u[j]) {
            return false;
        }
        j = j + 1;
    }
    let end = k + 1 + u.len();
    end == t.len() || !is_mattermost_username_char(t[end])
}

proof fn lemma_encode_concat(a: Seq<char>, b: Seq<char>)
    ensures
        encode_utf8(a + b) == encode_utf8(a) + encode_utf8(b),
    decreases a.len(),
{
    if a.len() == 0 {
        assert(a + b =~= b);
    } else {
        lemma_encode_concat(a.drop_first(), b);
        assert((a + b).drop_first() =~= a.drop_first() + b);
    }
}

fn char_width(c: char) -> (r: usize)
    ensures
        r == encode_scalar(c as u32).len(),
{
    proof {
        char_is_scalar(c);
    }
    let v = c as u32;
    if v < 0x80 {
        1
    } else if v < 0x800 {
        2
    } else if v < 0x10000 {
        3
    } else {
        4
    }
}

proof fn lemma_offset_step(t: Seq<char>, k: int)
    requires
        0 <= k < t.len(),
    ensures
        byte_offset(t, k + 1) == byte_offset(t, k) + encode_scalar(t[k] as u32).len(),
        byte_offset(t, k + 1) <= encode_utf8(t).len(),
{
    char_is_scalar(t[k]);
    let one = seq![t[k]];
    assert(t.take(k + 1) =~= t.take(k) + one);
    lemma_encode_concat(t.take(k), one);
    assert(one.drop_first() =~= Seq::<char>::empty());
    assert(encode_utf8(one.drop_first()) == Seq::<u8>::empty());
    assert(encode_utf8(one) == encode_scalar(one[0] as u32) + encode_utf8(one.drop_first()));
    assert(encode_utf8(one) =~= encode_scalar(t[k] as u32));
    assert(t =~= t.take(k + 1) + t.skip(k + 1));
    lemma_encode_concat(t.take(k + 1), t.skip(k + 1));
}

/// Byte spans `(start, end)` of the mentions of `@bot_username` in `text`.
///
/// Letters are compared without regard to ASCII case; a mention must not be
/// followed by a username character, and spans never overlap.
pub fn find_bot_mention_spans(text: &str, bot_username: &str) -> (r: Vec<(usize, usize)>)
    ensures
        r@.len() == mention_starts(text@, bot_username@, 0).len(),
        forall|i: int|
            0 <= i < r@.len() ==> {
                let k = #[trigger] mention_starts(text@, bot_username@, 0)[i];
                &&& r@[i].0 == byte_offset(text@, k)
                &&& r@[i].1 == byte_offset(text@, k + 1 + bot_username@.len())
            },
{
    let t = chars_of(text);
    let u = chars_of(bot_username);
    let mut r: Vec<(usize, usize)> = Vec::new();
    if u.len() == 0 {
        return r;
    }
    let bytes = text.as_bytes();
    let n = bytes.len();
    let ghost all = mention_starts(t@, u@, 0);
    let ghost done: Seq<int> = Seq::empty();
    let mut k: usize = 0;
    let mut b: usize = 0;
    while k < t.len()
        invariant
            t@ == text@,
            u@ == bot_username@,
            u.len() > 0,
            n == encode_utf8(text@).len(),
            k <= t.len(),
            b == byte_offset(t@, k as int),
            done + mention_starts(t@, u@, k as int) == all,
            r@.len() == done.len(),
            forall|i: int|
                0 <= i < r@.len() ==> {
                    let s = #[trigger] done[i];
                    &&& r@[i].0 == byte_offset(t@, s)
                    &&& r@[i].1 == byte_offset(t@, s + 1 + u@.len())
                },
        decreases t.len() - k,
    {
        if mention_at_exec(&t, &u, k) {
            let start = b;
            let ghost s = k as int;
            let end_k = k + 1 + u.len();
            while k < end_k
                invariant
                    t@ == text@,
                    n == encode_utf8(text@).len(),
                    end_k <= t.len(),
                    k <= end_k,
                    b == byte_offset(t@, k as int),
                decreases end_k - k,
            {
                proof {
                    lemma_offset_step(t@, k as int);
                }
                b = b + char_width(t[k]);
                k = k + 1;
            }
            proof {
                assert(mention_starts(t@, u@, s) == seq![s] + mention_starts(t@, u@, k as int));
                assert(done.push(s) + mention_starts(t@, u@, k as int) =~= done + mention_starts(
                    t@,
                    u@,
                    s,
                ));
                done = done.push(s);
            }
            r.push((start, b));
        } else {
            proof {
                lemma_offset_step(t@, k as int);
                if k + 1 + u.len() <= t.len() {
                    assert(mention_starts(t@, u@, k as int) == mention_starts(t@, u@, k + 1));
                } else {
                    assert(mention_starts(t@, u@, k + 1) == Seq::<int>::empty());
                }
            }
            b = b + char_width(t[k]);
            k = k + 1;
        }
    }
    proof {
        assert(done =~= all);
    }
    r
}

/// Whether position `i` lies strictly inside one of the spans that start at `starts`
/// and are `m + 1` characters long.
pub open spec fn inside_span(starts: Seq<int>, m: int, i: int) -> bool {
    exists|j: int| 0 <= j < starts.len() && #[trigger] starts[j] < i < starts[j] + 1 + m
}

proof fn lemma_starts_from(t: Seq<char>, u: Seq<char>, k: int, i: int)
    requires
        u.len() > 0,
        0 <= k <= i,
    ensures
        mention_starts(t, u, k).contains(i) ==> mention_at(t, u, i),
        mention_at(t, u, i) && !inside_span(mention_starts(t, u, k), u.len() as int, i)
            ==> mention_starts(t, u, k).contains(i),
    decreases t.len() - k,
{
    let ss = mention_starts(t, u, k);
    let m = u.len() as int;
    if k + 1 + m > t.len() {
    } else if mention_at(t, u, k) {
        let rest = mention_starts(t, u, k + 1 + m);
        assert(ss == seq![k] + rest);
        if i == k {
            assert(ss[0] == i);
        } else if i < k + 1 + m {
            if ss.contains(i) {
                let j = choose|j: int| 0 <= j < ss.len() && ss[j] == i;
                if j > 0 {
                    lemma_starts_ge(t, u, k + 1 + m);
                    assert(rest[j - 1] == i);
                    assert(rest[j - 1] >= k + 1 + m);
                }
            }
            if mention_at(t, u, i) {
                assert(ss[0] < i < ss[0] + 1 + m);
            }
        } else {
            lemma_starts_from(t, u, k + 1 + m, i);
            if rest.contains(i) {
                let j = choose|j: int| 0 <= j < rest.len() && rest[j] == i;
                assert(ss[j + 1] == i);
            }
            if ss.contains(i) {
                let j = choose|j: int| 0 <= j < ss.len() && ss[j] == i;
                assert(j > 0);
                assert(rest[j - 1] == i);
            }
            if inside_span(rest, m, i) {
                let j = choose|j: int| 0 <= j < rest.len() && #[trigger] rest[j] < i < rest[j] + 1 + m;
                assert(ss[j + 1] == rest[j]);
            }
        }
    } else {
        assert(ss == mention_starts(t, u, k + 1));
        if i == k {
            if ss.contains(i) {
                let j = choose|j: int| 0 <= j < ss.len() && ss[j] == i;
                lemma_starts_ge(t, u, k + 1);
                assert(ss[j] >= k + 1);
            }
        } else {
            lemma_starts_from(t, u, k + 1, i);
        }
    }
}

proof fn lemma_starts_ge(t: Seq<char>, u: Seq<char>, k: int)
    ensures
        forall|j: int|
            0 <= j < mention_starts(t, u, k).len() ==> #[trigger] mention_starts(t, u, k)[j] >= k,
    decreases t.len() - k,
{
    if u.len() == 0 || k < 0 || k + 1 + u.len() > t.len() {
    } else if mention_at(t, u, k) {
        lemma_starts_ge(t, u, k + 1 + u.len());
        let rest = mention_starts(t, u, k + 1 + u.len());
        assert forall|j: int|
            0 <= j < mention_starts(t, u, k).len() implies #[trigger] mention_starts(t, u, k)[j]
            >= k by {
            if j > 0 {
                assert(mention_starts(t, u, k)[j] == rest[j - 1]);
            }
        }
    } else {
        lemma_starts_ge(t, u, k + 1);
        assert(mention_starts(t, u, k) == mention_starts(t, u, k + 1));
    }
}

/// A span found in `t` for a non-empty username `u` starts exactly where `t` holds
/// `@u` (ASCII case ignored) not followed by a username character; and every such
/// place that does not lie inside an earlier span is found.
pub proof fn lemma_mention_boundary(t: Seq<char>, u: Seq<char>, i: int)
    requires
        u.len() > 0,
        0 <= i,
    ensures
        mention_starts(t, u, 0).contains(i) ==> mention_at(t, u, i),
        mention_at(t, u, i) && !inside_span(mention_starts(t, u, 0), u.len() as int, i)
            ==> mention_starts(t, u, 0).contains(i),
{
    lemma_starts_from(t, u, 0, i);
}

proof fn lemma_lower_same_width(a: char, b: char)
    requires
        lower(a) == lower(b),
    ensures
        encode_scalar(a as u32).len() == encode_scalar(b as u32).len(),
{
    char_is_scalar(a);
    char_is_scalar(b);
    if 'A' <= a && a <= 'Z' {
        assert(lower(a) as u32 <= 0x7a);
    }
    if 'A' <= b && b <= 'Z' {
        assert(lower(b) as u32 <= 0x7a);
    }
}

proof fn lemma_one_char(c: char)
    ensures
        encode_utf8(seq![c]) == encode_scalar(c as u32),
{
    let one = seq![c];
    assert(one.drop_first() =~= Seq::<char>::empty());
    assert(encode_utf8(one.drop_first()) == Seq::<u8>::empty());
    assert(encode_utf8(one) =~= encode_scalar(c as u32));
}

proof fn lemma_width_prefix(t: Seq<char>, u: Seq<char>, k: int, j: int)
    requires
        mention_at(t, u, k),
        0 <= j <= u.len(),
    ensures
        byte_offset(t, k + 1 + j) == byte_offset(t, k + 1) + encode_utf8(u.take(j)).len(),
    decreases j,
{
    if j == 0 {
        assert(u.take(0) =~= Seq::<char>::empty());
    } else {
        lemma_width_prefix(t, u, k, j - 1);
        lemma_offset_step(t, k + j);
        assert(lower(t[k + 1 + (j - 1)]) == lower(u[j - 1]));
        lemma_lower_same_width(t[k + j], u[j - 1]);
        assert(u.take(j) =~= u.take(j - 1) + seq![u[j - 1]]);
        lemma_encode_concat(u.take(j - 1), seq![u[j - 1]]);
        lemma_one_char(u[j - 1]);
    }
}

/// A mention found in `t` spans `1 + |u|` bytes (the `@` and the username's
/// bytes, whatever the case of its letters) and starts at an `@` byte.
pub proof fn lemma_span_bytes(t: Seq<char>, u: Seq<char>, k: int)
    requires
        mention_starts(t, u, 0).contains(k),
    ensures
        byte_offset(t, k + 1 + u.len()) == byte_offset(t, k) + 1 + encode_utf8(u).len(),
        encode_utf8(t)[byte_offset(t, k) as int] == 64u8,
{
    if u.len() == 0 {
        assert(mention_starts(t, u, 0) == Seq::<int>::empty());
    }
    lemma_starts_ge(t, u, 0);
    let idx = choose|idx: int| 0 <= idx < mention_starts(t, u, 0).len() && mention_starts(t, u, 0)[idx] == k;
    assert(mention_starts(t, u, 0)[idx] >= 0);
    lemma_starts_from(t, u, 0, k);
    assert(mention_at(t, u, k));
    lemma_offset_step(t, k);
    lemma_one_char('@');
    assert(64u32 & 0x7F == 64) by (bit_vector);
    assert('@' as u32 == 64);
    assert(encode_scalar('@' as u32) =~= seq![64u8]);
    lemma_width_prefix(t, u, k, u.len() as int);
    assert(u.take(u.len() as int) =~= u);
    assert(t =~= t.take(k) + t.skip(k));
    lemma_encode_concat(t.take(k), t.skip(k));
    assert(t.skip(k) =~= seq![t[k]] + t.skip(k + 1));
    lemma_encode_concat(seq![t[k]], t.skip(k + 1));
}

fn strip_mentions(t: &Vec<char>, u: &Vec<char>) -> (r: Vec<char>)
    ensures
        r@ == strip_from(t@, u@, 0),
{
    let mut r: Vec<char> = Vec::new();
    let mut k: usize = 0;
    while k < t.len()
        invariant
            k <= t.len(),
            r@ + strip_from(t@, u@, k as int) == strip_from(t@, u@, 0),
        decreases t.len() - k,
    {
        let ghost before = r@;
        if u.len() > 0 && mention_at_exec(t, u, k) {
            r.push(' ');
            proof {
                assert(before + strip_from(t@, u@, k as int) =~= r@ + strip_from(t@, u@, k + 1 + u.len()));
            }
            k = k + 1 + u.len();
        } else if u.len() == 0 || u.len() >= t.len() - k {
            proof {
                assert(strip_from(t@, u@, k as int) == t@.subrange(k as int, t.len() as int));
            }
            while k < t.len()
                invariant
                    k <= t.len(),
                    r@ + t@.subrange(k as int, t.len() as int) == strip_from(t@, u@, 0),
                decreases t.len() - k,
            {
                let ghost b2 = r@;
                r.push(t[k]);
                proof {
                    assert(b2 + t@.subrange(k as int, t.len() as int) =~= r@ + t@.subrange(k + 1, t.len() as int));
                }
                k = k + 1;
            }
            proof {
                assert(r@ + t@.subrange(k as int, t.len() as int) =~= r@);
                assert(strip_from(t@, u@, k as int) == Seq::<char>::empty());
            }
        } else {
            r.push(t[k]);
            proof {
                assert(before + strip_from(t@, u@, k as int) =~= r@ + strip_from(t@, u@, k + 1));
            }
            k = k + 1;
        }
    }
    proof {
        assert(r@ + strip_from(t@, u@, k as int) =~= r@);
    }
    r
}

fn metadata_mentions_bot(bot_user_id: &str, metadata_mentions: &Vec<String>) -> (r: bool)
    ensures
        r == metadata_names_bot(metadata_mentions@, bot_user_id@),
{
    if bot_user_id.is_empty() {
        return false;
    }
    let mut i: usize = 0;
    while i < metadata_mentions.len()
        invariant
            bot_user_id@.len() > 0,
            i <= metadata_mentions.len(),
            forall|j: int| 0 <= j < i ==> (#[trigger] metadata_mentions@[j])@ != bot_user_id@,
        decreases metadata_mentions.len() - i,
    {
        if str_eq(metadata_mentions[i].as_str(), bot_user_id) {
            assert(metadata_mentions@[i as int]@ == bot_user_id@);
            return true;
        }
        i = i + 1;
    }
    false
}

/// Whether a post mentions the bot: `@bot_username` in its text, or the bot's
/// user id among the post's mention metadata.
pub fn contains_bot_mention(
    text: &str,
    bot_user_id: &str,
    bot_username: &str,
    metadata_mentions: &Vec<String>,
) -> (r: bool)
    ensures
        r == mentions_bot(text@, bot_user_id@, bot_username@, metadata_mentions@),
{
    let spans = find_bot_mention_spans(text, bot_username);
    if spans.len() > 0 {
        return true;
    }
    metadata_mentions_bot(bot_user_id, metadata_mentions)
}

/// The content of a post addressed to the bot: every text mention replaced by one
/// space and the ends trimmed.
///
/// `None` when neither the text nor the metadata mentions the bot, or when nothing
/// but whitespace remains (a bare `@bot`).
pub fn normalize_content(
    text: &str,
    bot_user_id: &str,
    bot_username: &str,
    metadata_mentions: &Vec<String>,
) -> (r: Option<String>)
    ensures
        r matches Some(s) ==> normalized(text@, bot_user_id@, bot_username@, metadata_mentions@)
            == Some(s@),
        r is None ==> normalized(text@, bot_user_id@, bot_username@, metadata_mentions@) is None,
{
    let spans = find_bot_mention_spans(text, bot_username);
    let by_meta = metadata_mentions_bot(bot_user_id, metadata_mentions);
    if spans.len() == 0 && !by_meta {
        return None;
    }
    let t = chars_of(text);
    let cleaned = if spans.len() > 0 {
        let u = chars_of(bot_username);
        strip_mentions(&t, &u)
    } else {
        t
    };
    let (lo, hi) = trim_bounds(&cleaned);
    if lo == hi {
        return None;
    }
    Some(string_of(&cleaned, lo, hi))
}

} // verus!

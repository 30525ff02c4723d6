//! Channel names for projects: `"Auth Refactor"` becomes `"prj-auth-refactor"`.
use vstd::prelude::*;
use crate::text::{chars_of, lower_of, push_char, to_lowercase};

verus! {

/// Longest Slack channel name, in characters.
pub const MAX_CHANNEL_NAME_LEN: usize = 80;

/// ASCII letters and digits.
pub open spec fn is_ascii_alnum(c: char) -> bool {
    ('a' <= c && c <= 'z') || ('A' <= c && c <= 'Z') || ('0' <= c && c <= '9')
}

/// The runs of ASCII letters and digits of `s`, joined by single dashes.
/// `started`: a run was already emitted; `pending`: other characters followed it.
pub open spec fn squeeze(s: Seq<char>, started: bool, pending: bool) -> Seq<char>
    decreases s.len(),
{
    if s.len() == 0 {
        Seq::empty()
    } else if is_ascii_alnum(s[0]) {
        (if started && pending {
            seq!['-', s[0]]
        } else {
            seq![s[0]]
        }) + squeeze(s.skip(1), true, false)
    } else {
        squeeze(s.skip(1), started, true)
    }
}

/// The channel slug for an already lower-cased project name: `prj-` and the
/// name's letter-and-digit runs joined by dashes, cut to `MAX_CHANNEL_NAME_LEN`
/// characters; `None` when the name has no ASCII letter or digit.
pub open spec fn slug_of(lowered: Seq<char>) -> Option<Seq<char>> {
    let body = squeeze(lowered, false, false);
    if body.len() == 0 {
        None
    } else {
        let full = "prj-"@ + body;
        Some(
            if full.len() <= MAX_CHANNEL_NAME_LEN {
                full
            } else {
                full.take(MAX_CHANNEL_NAME_LEN as int)
            },
        )
    }
}

/// Why no channel slug could be made.
#[derive(Debug, Clone, Copy, PartialEq, Eq, Structural)]
pub enum SlugError {
    /// The name holds no ASCII letter or digit.
    Empty,
}

/// Builds the channel slug from a project name that is already lower case.
pub fn slug_from_lowercase(lowered: &str) -> (r: Result<String, SlugError>)
    ensures
        r matches Ok(s) ==> slug_of(lowered@) == Some(s@),
        r is Err <==> slug_of(lowered@) is None,
{
    let cs = chars_of(lowered);
    let mut body: Vec<char> = Vec::new();
    let mut started = false;
    let mut pending = false;
    let mut i: usize = 0;
    proof {
        assert(cs@.skip(0) =~= cs@);
        assert(body@ + squeeze(cs@, false, false) =~= squeeze(cs@, false, false));
    }
    while i < cs.len()
        invariant
            cs@ == lowered@,
            i <= cs.len(),
            body@ + squeeze(cs@.skip(i as int), started, pending) == squeeze(lowered@, false, false),
            body@.len() == 0 ==> !started,
        decreases cs.len() - i,
    {
        let c = cs[i];
        let ghost before = body@;
        let ghost rest = cs@.skip(i as int);
        assert(rest[0] == c);
        assert(rest.skip(1) =~= cs@.skip(i + 1));
        if ('a' <= c && c <= 'z') || ('A' <= c && c <= 'Z') || ('0' <= c && c <= '9') {
            if started && pending {
                body.push('-');
            }
            body.push(c);
            assert(before + squeeze(rest, started, pending) =~= body@ + squeeze(
                cs@.skip(i + 1),
                true,
                false,
            ));
            started = true;
            pending = false;
        } else {
            pending = true;
        }
        i = i + 1;
    }
    proof {
        assert(cs@.skip(i as int) =~= Seq::<char>::empty());
        assert(body@ =~= squeeze(lowered@, false, false));
    }
    if body.len() == 0 {
        return Err(SlugError::Empty);
    }
    let mut r = String::new();
    push_char(&mut r, 'p');
    push_char(&mut r, 'r');
    push_char(&mut r, 'j');
    push_char(&mut r, '-');
    proof {
        reveal_strlit("prj-");
        assert(r@ =~= "prj-"@);
    }
    let mut j: usize = 0;
    while j < body.len() && j + 4 < MAX_CHANNEL_NAME_LEN
        invariant
            j <= body.len(),
            j + 4 <= MAX_CHANNEL_NAME_LEN,
            r@ == "prj-"@ + body@.take(j as int),
        decreases body.len() - j,
    {
        push_char(&mut r, body[j]);
        j = j + 1;
        assert(r@ =~= "prj-"@ + body@.take(j as int));
    }
    proof {
        let full = "prj-"@ + body@;
        if full.len() <= MAX_CHANNEL_NAME_LEN {
            assert(body@.take(j as int) =~= body@);
            assert(r@ =~= full);
        } else {
            assert(j + 4 == MAX_CHANNEL_NAME_LEN);
            assert(r@ =~= full.take(MAX_CHANNEL_NAME_LEN as int));
        }
    }
    Ok(r)
}

/// Turns a project name into a Slack channel slug: lower case (Unicode rules),
/// then as `slug_from_lowercase`.
///
/// `"Auth Refactor"` gives `"prj-auth-refactor"`, `"Q1/2026 -- Infra"` gives
/// `"prj-q1-2026-infra"`; a name with no ASCII letter or digit is refused.
pub fn project_name_to_slack_slug(name: &str) -> (r: Result<String, SlugError>)
    ensures
        r matches Ok(s) ==> slug_of(lower_of(name@)) == Some(s@),
        r is Err <==> slug_of(lower_of(name@)) is None,
{
    let lowered = to_lowercase(name);
    slug_from_lowercase(lowered.as_str())
}

} // verus!

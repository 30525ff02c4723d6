//! Turning external service payloads (Vercel, Supabase, Upstash, custom) into
//! chat markdown that cannot smuggle mentions, links or formatting.
use vstd::prelude::*;
use vstd::utf8::{
    decode_utf8, encode_utf8, encode_utf8_decode_utf8, encode_utf8_valid_utf8, is_char_boundary,
    is_char_boundary_start_end_of_seq, valid_utf8,
};
use vstd::string::StringSliceAdditionalSpecFns;
use crate::text::str_eq;
use crate::json::{str_at, str_at_or};
use crate::text::{chars_of, push_char, push_str};

verus! {

/// Characters that carry meaning in chat markdown: mentions, links, emphasis,
/// code, headings and quotes.
pub open spec fn is_markdown_char(c: char) -> bool {
    c == '@' || c == '[' || c == ']' || c == '(' || c == ')' || c == '*' || c == '~' || c == '`'
        || c == '#' || c == '>'
}

/// `s` without its markdown characters.
pub open spec fn strip_markdown(s: Seq<char>) -> Seq<char>
    decreases s.len(),
{
    if s.len() == 0 {
        Seq::empty()
    } else if is_markdown_char(s.last()) {
        strip_markdown(s.drop_last())
    } else {
        strip_markdown(s.drop_last()).push(s.last())
    }
}

/// A payload field as embedded: markdown characters removed, then cut to `n` characters.
pub open spec fn clip(s: Seq<char>, n: nat) -> Seq<char> {
    let t = strip_markdown(s);
    if t.len() <= n {
        t
    } else {
        t.take(n as int)
    }
}

/// Whether `c` is a control character (general category Cc), as `char::is_control` tests.
pub open spec fn is_control(c: char) -> bool {
    c <= '\u{1f}' || ('\u{7f}' <= c && c <= '\u{9f}')
}

/// The characters of `https://`.
pub open spec fn https_scheme() -> Seq<char> {
    seq!['h', 't', 't', 'p', 's', ':', '/', '/']
}

/// The characters of `http://`.
pub open spec fn http_scheme() -> Seq<char> {
    seq!['h', 't', 't', 'p', ':', '/', '/']
}

/// The link to embed for a URL taken from a payload: `http(s)://` URLs as they
/// are, a bare host name with `https://` in front, nothing for any other scheme
/// or for a URL holding a control character.
pub open spec fn safe_url(u: Seq<char>) -> Option<Seq<char>> {
    if exists|i: int| 0 <= i < u.len() && is_control(#[trigger] u[i]) {
        None
    } else if u.len() >= 8 && u.take(8) == https_scheme() {
        Some(u)
    } else if u.len() >= 7 && u.take(7) == http_scheme() {
        Some(u)
    } else if !u.contains(':') {
        Some(https_scheme() + u)
    } else {
        None
    }
}

fn is_markdown(c: char) -> (r: bool)
    ensures
        r == is_markdown_char(c),
{
    c == '@' || c == '[' || c == ']' || c == '(' || c == ')' || c == '*' || c == '~' || c == '`'
        || c == '#' || c == '>'
}

/// Removes markdown characters from a payload field and keeps at most `max_len`
/// of the characters that remain.
pub fn sanitize_field(input: &str, max_len: usize) -> (r: String)
    ensures
        r@ == clip(input@, max_len as nat),
{
    let cs = chars_of(input);
    let mut r = String::new();
    let mut kept: usize = 0;
    let mut i: usize = 0;
    while i < cs.len()
        invariant
            cs@ == input@,
            i <= cs.len(),
            kept <= max_len,
            kept == r@.len(),
            r@ == strip_markdown(cs@.take(i as int)).take(kept as int),
            kept <= strip_markdown(cs@.take(i as int)).len(),
            kept < max_len ==> kept == strip_markdown(cs@.take(i as int)).len(),
        decreases cs.len() - i,
    {
        proof {
            assert(cs@.take(i + 1).drop_last() =~= cs@.take(i as int));
            lemma_strip_len(cs@.take(i + 1));
            lemma_strip_prefix(cs@.take(i + 1));
        }
        if !is_markdown(cs[i]) && kept < max_len {
            push_char(&mut r, cs[i]);
            kept = kept + 1;
            assert(r@ =~= strip_markdown(cs@.take(i + 1)).take(kept as int));
        } else if !is_markdown(cs[i]) {
            assert(strip_markdown(cs@.take(i + 1)) == strip_markdown(cs@.take(i as int)).push(cs@[i as int]));
            assert(r@ =~= strip_markdown(cs@.take(i + 1)).take(kept as int));
        } else {
            assert(strip_markdown(cs@.take(i + 1)) == strip_markdown(cs@.take(i as int)));
        }
        i = i + 1;
    }
    proof {
        assert(cs@.take(cs@.len() as int) =~= cs@);
        lemma_strip_len(cs@);
        let full = strip_markdown(input@);
        assert(full.take(full.len() as int) =~= full);
    }
    r
}

proof fn lemma_strip_len(s: Seq<char>)
    ensures
        strip_markdown(s).len() <= s.len(),
    decreases s.len(),
{
    if s.len() > 0 {
        lemma_strip_len(s.drop_last());
    }
}

proof fn lemma_strip_prefix(s: Seq<char>)
    requires
        s.len() > 0,
    ensures
        strip_markdown(s).take(strip_markdown(s.drop_last()).len() as int) == strip_markdown(
            s.drop_last(),
        ),
{
    assert(strip_markdown(s.drop_last()).push(s.last()).take(
        strip_markdown(s.drop_last()).len() as int,
    ) =~= strip_markdown(s.drop_last()));
    assert(strip_markdown(s.drop_last()).take(strip_markdown(s.drop_last()).len() as int)
        =~= strip_markdown(s.drop_last()));
}

fn is_control_char(c: char) -> (r: bool)
    ensures
        r == is_control(c),
{
    c <= '\u{1f}' || ('\u{7f}' <= c && c <= '\u{9f}')
}

fn starts_with_chars(cs: &Vec<char>, p: &Vec<char>) -> (r: bool)
    ensures
        r == (cs@.len() >= p@.len() && cs@.take(p@.len() as int) == p@),
{
    if cs.len() < p.len() {
        return false;
    }
    let mut i: usize = 0;
    while i < p.len()
        invariant
            cs@.len() >= p@.len(),
            i <= p.len(),
            forall|j: int| 0 <= j < i ==> cs@[j] == p@[j],
        decreases p.len() - i,
    {
        if cs[i] != p[i] {
            assert(cs@.take(p@.len() as int)[i as int] != p@[i as int]);
            return false;
        }
        i = i + 1;
    }
    assert(cs@.take(p@.len() as int) =~= p@);
    true
}

/// Checks and normalises a URL from a payload before it is embedded as a link.
///
/// `https://` and `http://` URLs pass unchanged, a bare host name (no `:`) gets
/// `https://` in front; any other scheme, and any URL holding a control character
/// (newline, carriage return, NUL, ...), is refused.
pub fn safe_http_url(url: &str) -> (r: Option<String>)
    ensures
        r matches Some(s) ==> safe_url(url@) == Some(s@),
        r is None ==> safe_url(url@) is None,
{
    let cs = chars_of(url);
    let mut i: usize = 0;
    let mut colon = false;
    while i < cs.len()
        invariant
            cs@ == url@,
            i <= cs.len(),
            forall|j: int| 0 <= j < i ==> !is_control(#[trigger] cs@[j]),
            colon == (exists|j: int| 0 <= j < i && cs@[j] == ':'),
        decreases cs.len() - i,
    {
        if is_control_char(cs[i]) {
            return None;
        }
        if cs[i] == ':' {
            colon = true;
        }
        i = i + 1;
    }
    let https = vec!['h', 't', 't', 'p', 's', ':', '/', '/'];
    let http = vec!['h', 't', 't', 'p', ':', '/', '/'];
    assert(https@ =~= https_scheme());
    assert(http@ =~= http_scheme());
    if starts_with_chars(&cs, &https) || starts_with_chars(&cs, &http) {
        let mut r = String::new();
        push_str(&mut r, url);
        assert(r@ =~= url@);
        Some(r)
    } else if !colon {
        let mut r = String::new();
        push_str(&mut r, "https://");
        proof {
            reveal_strlit("https://");
        }
        push_str(&mut r, url);
        assert(!url@.contains(':'));
        Some(r)
    } else {
        proof {
            let j = choose|j: int| 0 <= j < cs@.len() && cs@[j] == ':';
            assert(url@[j] == ':');
        }
        None
    }
}

/// Length of the longest prefix of `b` that ends on a character boundary and
/// has at most `max` bytes.
pub open spec fn cut_len(b: Seq<u8>, max: int) -> int
    decreases max,
{
    if max <= 0 {
        0
    } else if max >= b.len() {
        b.len() as int
    } else if is_char_boundary(b, max) {
        max
    } else {
        cut_len(b, max - 1)
    }
}

/// The characters of the longest prefix of `s` of at most `max` bytes that ends
/// on a character boundary.
pub open spec fn utf8_prefix(s: Seq<char>, max: int) -> Seq<char> {
    decode_utf8(encode_utf8(s).take(cut_len(encode_utf8(s), max)))
}

/// Cuts `s` to at most `max_bytes` bytes, at the last character boundary that
/// fits, so the result is always well-formed UTF-8.
pub fn truncate_bytes(s: &str, max_bytes: usize) -> (r: &str)
    ensures
        s.spec_bytes().len() <= max_bytes ==> r == s,
        r.spec_bytes() == s.spec_bytes().take(cut_len(s.spec_bytes(), max_bytes as int)),
        r.spec_bytes().len() <= max_bytes,
        r.spec_bytes() == s.spec_bytes().take(r.spec_bytes().len() as int),
        valid_utf8(r.spec_bytes()),
        forall|j: int|
            r.spec_bytes().len() < j <= max_bytes && j <= s.spec_bytes().len() ==> !is_char_boundary(
                s.spec_bytes(),
                j,
            ),
{
    proof {
        encode_utf8_valid_utf8(s@);
    }
    let n = s.as_bytes().len();
    if n <= max_bytes {
        return s;
    }
    let mut end = max_bytes;
    proof {
        is_char_boundary_start_end_of_seq(s.spec_bytes());
    }
    while !s.is_char_boundary(end)
        invariant
            end <= max_bytes < n,
            n == s.spec_bytes().len(),
            is_char_boundary(s.spec_bytes(), 0),
            forall|j: int| end < j <= max_bytes ==> !is_char_boundary(s.spec_bytes(), j),
            cut_len(s.spec_bytes(), end as int) == cut_len(s.spec_bytes(), max_bytes as int),
        decreases end,
    {
        end = end - 1;
    }
    let (head, _) = s.split_at(end);
    proof {
        encode_utf8_valid_utf8(head@);
    }
    head
}

/// Icon and status line of a Vercel event type.
pub open spec fn vercel_status(e: Seq<char>) -> (Seq<char>, Seq<char>) {
    if e == "deployment.succeeded"@ {
        (":white_check_mark:"@, "Deploy succeeded"@)
    } else if e == "deployment.failed"@ || e == "deployment.error"@ {
        (":x:"@, "Deploy failed"@)
    } else if e == "deployment.cancelled"@ {
        (":warning:"@, "Deploy cancelled"@)
    } else if e == "deployment.promoted"@ {
        (":rocket:"@, "Deploy promoted to production"@)
    } else {
        (":information_source:"@, e)
    }
}

/// A line for a URL field, when it is present and safe.
pub open spec fn url_line(u: Seq<char>, before: Seq<char>, after: Seq<char>) -> Seq<char> {
    if u.len() > 0 && safe_url(u) is Some {
        "\n"@ + before + safe_url(u)->0 + after
    } else {
        Seq::empty()
    }
}

/// The chat message for a Vercel deployment event, from the payload's raw fields.
pub open spec fn vercel_text(
    event_type: Seq<char>,
    project: Seq<char>,
    url: Seq<char>,
    inspector: Seq<char>,
    commit: Seq<char>,
) -> Seq<char> {
    let e = clip(event_type, 64);
    let c = clip(commit, 256);
    let (icon, status) = vercel_status(e);
    icon + " **Vercel** \u{b7} **"@ + clip(project, 128) + "** \u{2014} "@ + status + url_line(
        url,
        "URL: "@,
        Seq::empty(),
    ) + (if c.len() > 0 {
        "\nCommit: _"@ + c + "_"@
    } else {
        Seq::empty()
    }) + url_line(inspector, "[View deployment]("@, ")"@)
}

fn push_url_line(r: &mut String, u: &str, before: &str, after: &str)
    ensures
        final(r)@ == old(r)@ + url_line(u@, before@, after@),
{
    if !u.is_empty() {
        if let Some(safe) = safe_http_url(u) {
            push_str(r, "\n");
            proof {
                reveal_strlit("\n");
            }
            push_str(r, before);
            push_str(r, safe.as_str());
            push_str(r, after);
            assert(r@ =~= old(r)@ + url_line(u@, before@, after@));
        }
    }
}

/// Builds the chat message for a Vercel deployment event from its raw fields:
/// event type, project name, deployment URL, inspector URL and commit message.
fn vercel_message(
    event_type: &str,
    project: &str,
    url: &str,
    inspector: &str,
    commit: &str,
) -> (r: String)
    ensures
        r@ == vercel_text(event_type@, project@, url@, inspector@, commit@),
{
    let e = sanitize_field(event_type, 64);
    let p = sanitize_field(project, 128);
    let c = sanitize_field(commit, 256);
    proof {
        reveal_strlit("deployment.succeeded");
        reveal_strlit("deployment.failed");
        reveal_strlit("deployment.error");
        reveal_strlit("deployment.cancelled");
        reveal_strlit("deployment.promoted");
        reveal_strlit(":white_check_mark:");
        reveal_strlit(":x:");
        reveal_strlit(":warning:");
        reveal_strlit(":rocket:");
        reveal_strlit(":information_source:");
        reveal_strlit("Deploy succeeded");
        reveal_strlit("Deploy failed");
        reveal_strlit("Deploy cancelled");
        reveal_strlit("Deploy promoted to production");
        reveal_strlit(" **Vercel** \u{b7} **");
        reveal_strlit("** \u{2014} ");
        reveal_strlit("URL: ");
        reveal_strlit("");
        reveal_strlit("\nCommit: _");
        reveal_strlit("_");
        reveal_strlit("[View deployment](");
        reveal_strlit(")");
    }
    let es = e.as_str();
    let (icon, status): (&str, &str) = if str_eq(es, "deployment.succeeded") {
        (":white_check_mark:", "Deploy succeeded")
    } else if str_eq(es, "deployment.failed") || str_eq(es, "deployment.error") {
        (":x:", "Deploy failed")
    } else if str_eq(es, "deployment.cancelled") {
        (":warning:", "Deploy cancelled")
    } else if str_eq(es, "deployment.promoted") {
        (":rocket:", "Deploy promoted to production")
    } else {
        (":information_source:", es)
    };
    assert((icon@, status@) == vercel_status(e@));
    let mut r = String::new();
    push_str(&mut r, icon);
    push_str(&mut r, " **Vercel** \u{b7} **");
    push_str(&mut r, p.as_str());
    push_str(&mut r, "** \u{2014} ");
    push_str(&mut r, status);
    let ghost head = r@;
    push_url_line(&mut r, url, "URL: ", "");
    assert(""@ =~= Seq::<char>::empty());
    let ghost with_url = r@;
    if !c.as_str().is_empty() {
        push_str(&mut r, "\nCommit: _");
        push_str(&mut r, c.as_str());
        push_str(&mut r, "_");
    }
    let ghost with_commit = r@;
    push_url_line(&mut r, inspector, "[View deployment](", ")");
    proof {
        let c_line = if c@.len() > 0 { "\nCommit: _"@ + c@ + "_"@ } else { Seq::<char>::empty() };
        assert(with_commit =~= with_url + c_line);
        assert(r@ =~= vercel_text(event_type@, project@, url@, inspector@, commit@));
    }
    r
}

/// Appends `"\n" + line` when `line` is not empty.
pub open spec fn extra_line(line: Seq<char>) -> Seq<char> {
    if line.len() > 0 {
        "\n"@ + line
    } else {
        Seq::empty()
    }
}

fn push_extra_line(r: &mut String, line: &str)
    ensures
        final(r)@ == old(r)@ + extra_line(line@),
{
    proof {
        reveal_strlit("\n");
    }
    if !line.is_empty() {
        push_str(r, "\n");
        push_str(r, line);
        assert(r@ =~= old(r)@ + extra_line(line@));
    } else {
        assert(r@ =~= old(r)@ + extra_line(line@));
    }
}

/// The chat message for a Supabase alert.
pub open spec fn supabase_alert_text(alert_name: Seq<char>, project_ref: Seq<char>, message: Seq<char>) -> Seq<char> {
    ":warning: **Supabase** \u{b7} **"@ + clip(project_ref, 64) + "** \u{2014} Alert: "@ + clip(
        alert_name,
        128,
    ) + extra_line(clip(message, 512))
}

/// Builds the chat message for a Supabase alert.
fn supabase_alert_message(alert_name: &str, project_ref: &str, message: &str) -> (r: String)
    ensures
        r@ == supabase_alert_text(alert_name@, project_ref@, message@),
{
    let a = sanitize_field(alert_name, 128);
    let p = sanitize_field(project_ref, 64);
    let m = sanitize_field(message, 512);
    proof {
        reveal_strlit(":warning: **Supabase** \u{b7} **");
        reveal_strlit("** \u{2014} Alert: ");
    }
    let mut r = String::new();
    push_str(&mut r, ":warning: **Supabase** \u{b7} **");
    push_str(&mut r, p.as_str());
    push_str(&mut r, "** \u{2014} Alert: ");
    push_str(&mut r, a.as_str());
    push_extra_line(&mut r, m.as_str());
    assert(r@ =~= supabase_alert_text(alert_name@, project_ref@, message@));
    r
}

/// The chat message for a Supabase edge function error.
pub open spec fn supabase_error_text(error: Seq<char>, function_name: Seq<char>) -> Seq<char> {
    ":x: **Supabase** \u{b7} Edge function **"@ + clip(function_name, 128) + "** error: "@ + clip(
        error,
        256,
    )
}

/// Builds the chat message for a Supabase edge function error.
fn supabase_error_message(error: &str, function_name: &str) -> (r: String)
    ensures
        r@ == supabase_error_text(error@, function_name@),
{
    let e = sanitize_field(error, 256);
    let f = sanitize_field(function_name, 128);
    proof {
        reveal_strlit(":x: **Supabase** \u{b7} Edge function **");
        reveal_strlit("** error: ");
    }
    let mut r = String::new();
    push_str(&mut r, ":x: **Supabase** \u{b7} Edge function **");
    push_str(&mut r, f.as_str());
    push_str(&mut r, "** error: ");
    push_str(&mut r, e.as_str());
    assert(r@ =~= supabase_error_text(error@, function_name@));
    r
}

/// The chat message for a Supabase database event.
pub open spec fn supabase_db_text(table: Seq<char>, schema: Seq<char>, event_type: Seq<char>) -> Seq<char> {
    ":floppy_disk: **Supabase** \u{b7} `"@ + clip(schema, 64) + "."@ + clip(table, 64)
        + "` \u{2014} "@ + clip(event_type, 32) + " event"@
}

/// Builds the chat message for a Supabase database event.
fn supabase_db_message(table: &str, schema: &str, event_type: &str) -> (r: String)
    ensures
        r@ == supabase_db_text(table@, schema@, event_type@),
{
    let t = sanitize_field(table, 64);
    let s = sanitize_field(schema, 64);
    let e = sanitize_field(event_type, 32);
    proof {
        reveal_strlit(":floppy_disk: **Supabase** \u{b7} `");
        reveal_strlit(".");
        reveal_strlit("` \u{2014} ");
        reveal_strlit(" event");
    }
    let mut r = String::new();
    push_str(&mut r, ":floppy_disk: **Supabase** \u{b7} `");
    push_str(&mut r, s.as_str());
    push_str(&mut r, ".");
    push_str(&mut r, t.as_str());
    push_str(&mut r, "` \u{2014} ");
    push_str(&mut r, e.as_str());
    push_str(&mut r, " event");
    assert(r@ =~= supabase_db_text(table@, schema@, event_type@));
    r
}

/// Icon and label of an Upstash event.
pub open spec fn upstash_status(e: Seq<char>) -> (Seq<char>, Seq<char>) {
    if e == "rate_limit_exceeded"@ {
        (":warning:"@, "Rate limit exceeded"@)
    } else if e == "circuit_breaker_open"@ {
        (":red_circle:"@, "Circuit breaker opened"@)
    } else if e == "circuit_breaker_close"@ {
        (":large_green_circle:"@, "Circuit breaker closed"@)
    } else if e == "dlq_message_received"@ {
        (":skull_and_crossbones:"@, "Dead letter queue message received"@)
    } else {
        (":information_source:"@, e)
    }
}

/// The chat message for an Upstash event.
pub open spec fn upstash_text(event: Seq<char>, resource: Seq<char>, message: Seq<char>) -> Seq<char> {
    let (icon, label) = upstash_status(clip(event, 64));
    icon + " **Upstash** \u{b7} **"@ + clip(resource, 64) + "** \u{2014} "@ + label + extra_line(
        clip(message, 512),
    )
}

/// Builds the chat message for an Upstash event on a database or queue.
fn upstash_message(event: &str, resource: &str, message: &str) -> (r: String)
    ensures
        r@ == upstash_text(event@, resource@, message@),
{
    let e = sanitize_field(event, 64);
    let res = sanitize_field(resource, 64);
    let m = sanitize_field(message, 512);
    proof {
        reveal_strlit("rate_limit_exceeded");
        reveal_strlit("circuit_breaker_open");
        reveal_strlit("circuit_breaker_close");
        reveal_strlit("dlq_message_received");
        reveal_strlit(":warning:");
        reveal_strlit(":red_circle:");
        reveal_strlit(":large_green_circle:");
        reveal_strlit(":skull_and_crossbones:");
        reveal_strlit(":information_source:");
        reveal_strlit("Rate limit exceeded");
        reveal_strlit("Circuit breaker opened");
        reveal_strlit("Circuit breaker closed");
        reveal_strlit("Dead letter queue message received");
        reveal_strlit(" **Upstash** \u{b7} **");
        reveal_strlit("** \u{2014} ");
    }
    let es = e.as_str();
    let (icon, label): (&str, &str) = if str_eq(es, "rate_limit_exceeded") {
        (":warning:", "Rate limit exceeded")
    } else if str_eq(es, "circuit_breaker_open") {
        (":red_circle:", "Circuit breaker opened")
    } else if str_eq(es, "circuit_breaker_close") {
        (":large_green_circle:", "Circuit breaker closed")
    } else if str_eq(es, "dlq_message_received") {
        (":skull_and_crossbones:", "Dead letter queue message received")
    } else {
        (":information_source:", es)
    };
    assert((icon@, label@) == upstash_status(e@));
    let mut r = String::new();
    push_str(&mut r, icon);
    push_str(&mut r, " **Upstash** \u{b7} **");
    push_str(&mut r, res.as_str());
    push_str(&mut r, "** \u{2014} ");
    push_str(&mut r, label);
    push_extra_line(&mut r, m.as_str());
    assert(r@ =~= upstash_text(event@, resource@, message@));
    r
}

/// The chat message for a custom webhook that carries a `message` field.
pub open spec fn custom_text(message: Seq<char>, source: Seq<char>) -> Seq<char> {
    ":incoming_envelope: **"@ + clip(source, 64) + "** \u{2014} "@ + clip(message, 1024)
}

/// Builds the chat message for a custom webhook that carries a `message` field.
fn custom_message(message: &str, source: &str) -> (r: String)
    ensures
        r@ == custom_text(message@, source@),
{
    let src = sanitize_field(source, 64);
    let m = sanitize_field(message, 1024);
    proof {
        reveal_strlit(":incoming_envelope: **");
        reveal_strlit("** \u{2014} ");
    }
    let mut r = String::new();
    push_str(&mut r, ":incoming_envelope: **");
    push_str(&mut r, src.as_str());
    push_str(&mut r, "** \u{2014} ");
    push_str(&mut r, m.as_str());
    assert(r@ =~= custom_text(message@, source@));
    r
}

/// `s` with every run of three backticks, scanned left to right, escaped.
pub open spec fn escape_fences(s: Seq<char>) -> Seq<char>
    decreases s.len(),
{
    if s.len() == 0 {
        Seq::empty()
    } else if s.len() >= 3 && s[0] == '`' && s[1] == '`' && s[2] == '`' {
        seq!['\\', '`', '\\', '`', '\\', '`'] + escape_fences(s.skip(3))
    } else {
        seq![s[0]] + escape_fences(s.skip(1))
    }
}

fn escape_code_fences(s: &str) -> (r: String)
    ensures
        r@ == escape_fences(s@),
{
    let cs = chars_of(s);
    let mut r = String::new();
    let mut i: usize = 0;
    proof {
        assert(cs@.skip(0) =~= cs@);
        assert(r@ + escape_fences(cs@) =~= escape_fences(cs@));
    }
    while i < cs.len()
        invariant
            cs@ == s@,
            i <= cs.len(),
            r@ + escape_fences(cs@.skip(i as int)) == escape_fences(s@),
        decreases cs.len() - i,
    {
        let ghost before = r@;
        let ghost rest = cs@.skip(i as int);
        if cs.len() - i >= 3 && cs[i] == '`' && cs[i + 1] == '`' && cs[i + 2] == '`' {
            push_char(&mut r, '\\');
            push_char(&mut r, '`');
            push_char(&mut r, '\\');
            push_char(&mut r, '`');
            push_char(&mut r, '\\');
            push_char(&mut r, '`');
            proof {
                assert(rest.skip(3) =~= cs@.skip(i + 3));
                assert(rest[0] == '`' && rest[1] == '`' && rest[2] == '`');
                assert(before + escape_fences(rest) =~= r@ + escape_fences(cs@.skip(i + 3)));
            }
            i = i + 3;
        } else {
            push_char(&mut r, cs[i]);
            proof {
                assert(rest.skip(1) =~= cs@.skip(i + 1));
                assert(rest[0] == cs@[i as int]);
                if rest.len() >= 3 {
                    assert(rest[1] == cs@[i + 1] && rest[2] == cs@[i + 2]);
                }
                assert(before + escape_fences(rest) =~= r@ + escape_fences(cs@.skip(i + 1)));
            }
            i = i + 1;
        }
    }
    proof {
        assert(cs@.skip(i as int) =~= Seq::<char>::empty());
        assert(r@ =~= r@ + escape_fences(cs@.skip(i as int)));
    }
    r
}

/// Longest JSON text, in bytes, embedded in a code block.
pub const CODE_BLOCK_MAX: usize = 4000;

/// Longest message, in bytes, sent to the chat's incoming webhook.
pub const MAX_TEXT_LEN: usize = 16000;

/// The chat message that shows a custom payload's JSON text in a code block. The
/// text is cut to `CODE_BLOCK_MAX` bytes (marked `...(truncated)`) when longer,
/// and its code fences are escaped so it cannot leave the block.
pub fn custom_code_block(pretty: &str) -> (r: String)
    ensures
        pretty.spec_bytes().len() <= CODE_BLOCK_MAX ==> r@ == ":incoming_envelope: **Custom webhook**\n```json\n"@
            + escape_fences(pretty@) + "\n```"@,
        pretty.spec_bytes().len() > CODE_BLOCK_MAX ==> r@
            == ":incoming_envelope: **Custom webhook**\n```json\n"@ + escape_fences(
            utf8_prefix(pretty@, CODE_BLOCK_MAX as int) + "...(truncated)"@,
        ) + "\n```"@,
{
    proof {
        reveal_strlit(":incoming_envelope: **Custom webhook**\n```json\n");
        reveal_strlit("\n```");
        reveal_strlit("...(truncated)");
    }
    let body = if pretty.as_bytes().len() > CODE_BLOCK_MAX {
        let cut = truncate_bytes(pretty, CODE_BLOCK_MAX);
        proof {
            encode_utf8_decode_utf8(cut@);
        }
        let mut b = String::new();
        push_str(&mut b, cut);
        push_str(&mut b, "...(truncated)");
        b
    } else {
        let mut b = String::new();
        push_str(&mut b, pretty);
        b
    };
    let escaped = escape_code_fences(body.as_str());
    let mut r = String::new();
    push_str(&mut r, ":incoming_envelope: **Custom webhook**\n```json\n");
    push_str(&mut r, escaped.as_str());
    push_str(&mut r, "\n```");
    r
}


/// The fields of a Vercel deployment webhook that the message shows.
pub struct VercelPayload {
    /// `type`, `"unknown"` when absent.
    pub event_type: String,
    /// `payload.project.name`, else `payload.deployment.name`, else `"unknown project"`.
    pub project: String,
    /// `payload.deployment.url`, empty when absent.
    pub url: String,
    /// `payload.links.deployment`, else `payload.deployment.inspectorUrl`, else empty.
    pub inspector: String,
    /// `payload.deployment.meta.githubCommitMessage`, empty when absent.
    pub commit: String,
}

/// Reads a Vercel deployment webhook.
pub fn vercel_payload(body: &serde_json::Value) -> VercelPayload {
    VercelPayload {
        event_type: str_at_or(body, "/type", "/type", "unknown"),
        project: str_at_or(body, "/payload/project/name", "/payload/deployment/name", "unknown project"),
        url: str_at_or(body, "/payload/deployment/url", "/payload/deployment/url", ""),
        inspector: str_at_or(body, "/payload/links/deployment", "/payload/deployment/inspectorUrl", ""),
        commit: str_at_or(
            body,
            "/payload/deployment/meta/githubCommitMessage",
            "/payload/deployment/meta/githubCommitMessage",
            "",
        ),
    }
}

/// Transforms a Vercel deployment webhook into a chat message.
pub fn transform_vercel(p: &VercelPayload) -> (r: String)
    ensures
        r@ == vercel_text(p.event_type@, p.project@, p.url@, p.inspector@, p.commit@),
{
    vercel_message(p.event_type.as_str(), p.project.as_str(), p.url.as_str(), p.inspector.as_str(), p.commit.as_str())
}

/// A Supabase webhook, by kind.
pub enum SupabasePayload {
    /// An alert (`alert_name` present); `project_ref` defaults to `"unknown"`,
    /// `message` to empty.
    Alert { alert_name: String, project_ref: String, message: String },
    /// An edge function error (`error` present); `function_name` defaults to
    /// `"unknown function"`.
    FunctionError { error: String, function_name: String },
    /// A database event; `table` defaults to `"unknown"`, `schema` to `"public"`,
    /// `type` to `"event"`.
    DbEvent { table: String, schema: String, event_type: String },
}

/// Reads a Supabase webhook.
pub fn supabase_payload(body: &serde_json::Value) -> SupabasePayload {
    if let Some(alert_name) = str_at(body, "/alert_name") {
        return SupabasePayload::Alert {
            alert_name,
            project_ref: str_at_or(body, "/project_ref", "/project_ref", "unknown"),
            message: str_at_or(body, "/message", "/message", ""),
        };
    }
    if let Some(error) = str_at(body, "/error") {
        return SupabasePayload::FunctionError {
            error,
            function_name: str_at_or(body, "/function_name", "/function_name", "unknown function"),
        };
    }
    SupabasePayload::DbEvent {
        table: str_at_or(body, "/table", "/table", "unknown"),
        schema: str_at_or(body, "/schema", "/schema", "public"),
        event_type: str_at_or(body, "/type", "/type", "event"),
    }
}

/// Transforms a Supabase webhook into a chat message.
pub fn transform_supabase(p: &SupabasePayload) -> (r: String)
    ensures
        r@ == match *p {
            SupabasePayload::Alert { alert_name, project_ref, message } => supabase_alert_text(
                alert_name@,
                project_ref@,
                message@,
            ),
            SupabasePayload::FunctionError { error, function_name } => supabase_error_text(
                error@,
                function_name@,
            ),
            SupabasePayload::DbEvent { table, schema, event_type } => supabase_db_text(
                table@,
                schema@,
                event_type@,
            ),
        },
{
    match p {
        SupabasePayload::Alert { alert_name, project_ref, message } => supabase_alert_message(
            alert_name.as_str(),
            project_ref.as_str(),
            message.as_str(),
        ),
        SupabasePayload::FunctionError { error, function_name } => supabase_error_message(
            error.as_str(),
            function_name.as_str(),
        ),
        SupabasePayload::DbEvent { table, schema, event_type } => supabase_db_message(
            table.as_str(),
            schema.as_str(),
            event_type.as_str(),
        ),
    }
}

/// The fields of an Upstash webhook that the message shows.
pub struct UpstashPayload {
    /// `event`, `"event"` when absent.
    pub event: String,
    /// `database_id`, else `queue_name`, else `"unknown"`.
    pub resource: String,
    /// `message`, else `details.message`, else empty.
    pub message: String,
}

/// Reads an Upstash webhook.
pub fn upstash_payload(body: &serde_json::Value) -> UpstashPayload {
    UpstashPayload {
        event: str_at_or(body, "/event", "/event", "event"),
        resource: str_at_or(body, "/database_id", "/queue_name", "unknown"),
        message: str_at_or(body, "/message", "/details/message", ""),
    }
}

/// Transforms an Upstash webhook into a chat message.
pub fn transform_upstash(p: &UpstashPayload) -> (r: String)
    ensures
        r@ == upstash_text(p.event@, p.resource@, p.message@),
{
    upstash_message(p.event.as_str(), p.resource.as_str(), p.message.as_str())
}

/// A custom webhook: one with a `message` string, or any other JSON document.
pub enum CustomPayload {
    /// `message` present; `source` defaults to `"custom"`.
    Message { message: String, source: String },
    /// The whole document, pretty-printed.
    Document { pretty: String },
}

/// Relies on `serde_json::to_string_pretty`: writing a `Value` (string keys only)
/// into memory does not fail.
#[verifier::external_body]
fn pretty_json(v: &serde_json::Value) -> String {
    serde_json::to_string_pretty(v).expect("a JSON value always serialises")
}

/// Reads a custom webhook.
pub fn custom_payload(body: &serde_json::Value) -> CustomPayload {
    match str_at(body, "/message") {
        Some(message) => CustomPayload::Message {
            message,
            source: str_at_or(body, "/source", "/source", "custom"),
        },
        None => CustomPayload::Document { pretty: pretty_json(body) },
    }
}

/// Transforms a custom webhook into a chat message: the sanitised message and
/// source, or the document in a code block (cut at `CODE_BLOCK_MAX` bytes, fences
/// escaped).
pub fn transform_custom(p: &CustomPayload) -> (r: String)
    ensures
        p matches CustomPayload::Message { message, source } ==> r@ == custom_text(message@, source@),
        p matches CustomPayload::Document { pretty } ==> (encode_utf8(pretty@).len() <= CODE_BLOCK_MAX
            ==> r@ == ":incoming_envelope: **Custom webhook**\n```json\n"@ + escape_fences(pretty@)
            + "\n```"@),
        p matches CustomPayload::Document { pretty } ==> (encode_utf8(pretty@).len() > CODE_BLOCK_MAX
            ==> r@ == ":incoming_envelope: **Custom webhook**\n```json\n"@ + escape_fences(
            utf8_prefix(pretty@, CODE_BLOCK_MAX as int) + "...(truncated)"@,
        ) + "\n```"@),
{
    match p {
        CustomPayload::Message { message, source } => custom_message(message.as_str(), source.as_str()),
        CustomPayload::Document { pretty } => custom_code_block(pretty.as_str()),
    }
}

/// The text to send to the chat's incoming webhook: `text` cut to
/// `MAX_TEXT_LEN` bytes on a character boundary when longer.
pub fn outgoing_text(text: &str) -> (r: &str)
    ensures
        text.spec_bytes().len() <= MAX_TEXT_LEN ==> r == text,
        r.spec_bytes().len() <= MAX_TEXT_LEN,
        r.spec_bytes() == text.spec_bytes().take(r.spec_bytes().len() as int),
{
    truncate_bytes(text, MAX_TEXT_LEN)
}

} // verus!

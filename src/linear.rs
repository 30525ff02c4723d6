//! The Linear API endpoint check: HTTPS to `api.linear.app` only.
use vstd::prelude::*;
use crate::text::{chars_of, first_where, lemma_first_where, push_str, sub_chars};

verus! {

/// Where the host part of a URL ends.
pub open spec fn ends_host(s: Seq<char>) -> spec_fn(int) -> bool {
    |k: int| s[k] == '/' || s[k] == '?' || s[k] == '#' || s[k] == ':'
}

/// The host of an `https://` URL: after the scheme, up to the first `/`, `?`,
/// `#` or `:`.
pub open spec fn https_host(url: Seq<char>) -> Seq<char> {
    let rest = url.skip(8);
    rest.take(first_where(rest.len() as int, ends_host(rest)))
}

/// Why an endpoint was refused.
#[derive(Debug, Clone, Copy, PartialEq, Eq, Structural)]
pub enum LinearUrlError {
    /// Only `https://` URLs are allowed.
    NotHttps,
    /// The host is not `api.linear.app`.
    HostNotAllowed,
}

impl LinearUrlError {
    /// A message for logs and errors.
    pub fn message(&self) -> (r: String)
        ensures
            *self == LinearUrlError::NotHttps ==> r@ == "linear.endpoint: only https:// URLs are allowed"@,
            *self == LinearUrlError::HostNotAllowed ==> r@
                == "linear.endpoint: host is not in the allowlist (api.linear.app)"@,
    {
        let mut r = String::new();
        match self {
            LinearUrlError::NotHttps => push_str(&mut r, "linear.endpoint: only https:// URLs are allowed"),
            LinearUrlError::HostNotAllowed => push_str(
                &mut r,
                "linear.endpoint: host is not in the allowlist (api.linear.app)",
            ),
        }
        r
    }
}

/// Checks the Linear GraphQL endpoint: it must be `https://` and its host
/// exactly `api.linear.app` (any port or path).
pub fn validate_linear_url(url: &str) -> (r: Result<(), LinearUrlError>)
    ensures
        !(url@.len() >= 8 && url@.take(8) == "https://"@) ==> r == Err::<(), _>(
            LinearUrlError::NotHttps,
        ),
        url@.len() >= 8 && url@.take(8) == "https://"@ ==> (r is Ok <==> https_host(url@)
            == "api.linear.app"@),
        url@.len() >= 8 && url@.take(8) == "https://"@ && r is Err ==> r == Err::<(), _>(
            LinearUrlError::HostNotAllowed,
        ),
{
    proof {
        reveal_strlit("https://");
        reveal_strlit("api.linear.app");
    }
    let cs = chars_of(url);
    let scheme = cs.len() >= 8 && cs[0] == 'h' && cs[1] == 't' && cs[2] == 't' && cs[3] == 'p'
        && cs[4] == 's' && cs[5] == ':' && cs[6] == '/' && cs[7] == '/';
    proof {
        if url@.len() >= 8 && url@.take(8) == "https://"@ {
            assert(url@.take(8)[0] == cs@[0] && url@.take(8)[1] == cs@[1] && url@.take(8)[2] == cs@[2]);
            assert(url@.take(8)[3] == cs@[3] && url@.take(8)[4] == cs@[4] && url@.take(8)[5] == cs@[5]);
            assert(url@.take(8)[6] == cs@[6] && url@.take(8)[7] == cs@[7]);
        }
        if scheme {
            assert(url@.take(8) =~= "https://"@);
        }
    }
    if !scheme {
        return Err(LinearUrlError::NotHttps);
    }
    let rest = sub_chars(&cs, 8, cs.len());
    assert(rest@ =~= url@.skip(8));
    let mut i: usize = 0;
    while i < rest.len() && rest[i] != '/' && rest[i] != '?' && rest[i] != '#' && rest[i] != ':'
        invariant
            i <= rest.len(),
            forall|j: int| 0 <= j < i ==> !#[trigger] ends_host(rest@)(j),
        decreases rest.len() - i,
    {
        i = i + 1;
    }
    proof {
        lemma_first_where(rest@.len() as int, ends_host(rest@), i as int);
    }
    let expected = chars_of("api.linear.app");
    let mut same = i == expected.len();
    let mut j: usize = 0;
    while same && j < i
        invariant
            i <= rest.len(),
            expected@ == "api.linear.app"@,
            same ==> i == expected.len(),
            j <= i,
            same ==> forall|q: int| 0 <= q < j ==> rest@[q] == expected@[q],
            !same ==> (i != expected.len() || (0 < j <= i && rest@[j - 1] != expected@[j - 1])),
        decreases i - j,
    {
        if rest[j] != expected[j] {
            same = false;
        }
        j = j + 1;
    }
    proof {
        let host = rest@.take(i as int);
        if same {
            assert(host =~= expected@);
        } else if host.len() == expected@.len() {
            assert(j > 0);
            assert(host[j - 1] != expected@[j - 1]);
        }
    }
    if same {
        Ok(())
    } else {
        Err(LinearUrlError::HostNotAllowed)
    }
}

} // verus!

//! Signature checks for inbound webhooks.
//!
//! Linear sends a bare hex HMAC-SHA256 of the raw body; GitHub sends the same
//! digest as `sha256=<hex>`. The comparison never stops at the first differing byte.
use vstd::prelude::*;
use vstd::utf8::encode_utf8;
use vstd::string::StringSliceAdditionalSpecFns;
use hmac::{Hmac, Mac};
use sha2::Sha256;

verus! {

/// The HMAC-SHA256 tag of `msg` under `key`.
pub uninterp spec fn hmac_sha256_of(key: Seq<u8>, msg: Seq<u8>) -> Seq<u8>;

/// Lower-case hex digit of a value below 16.
pub open spec fn hex_digit(v: u8) -> char {
    if v < 10 {
        ((v + 48) as u8) as char
    } else {
        ((v + 87) as u8) as char
    }
}

/// Lower-case hex of `b`, two digits per byte, high half first.
pub open spec fn hex_of(b: Seq<u8>) -> Seq<char>
    decreases b.len(),
{
    if b.len() == 0 {
        Seq::empty()
    } else {
        seq![hex_digit(b[0] / 16), hex_digit(b[0] % 16)] + hex_of(b.drop_first())
    }
}

/// Relies on `hmac::Hmac<Sha256>` (`new_from_slice`, `update`, `finalize`): the tag
/// depends on the key and the message alone, and is 32 bytes long. `new_from_slice`
/// accepts keys of any length.
#[verifier::external_body]
fn hmac_sha256(key: &[u8], msg: &[u8]) -> (r: Vec<u8>)
    ensures
        r@ == hmac_sha256_of(key@, msg@),
        r@.len() == 32,
{
    let mut mac = Hmac::<Sha256>::new_from_slice(key).expect("HMAC accepts keys of any length");
    mac.update(msg);
    mac.finalize().into_bytes().to_vec()
}

/// Relies on `hex::encode`: two lower-case hex digits per byte, in order.
#[verifier::external_body]
fn to_hex(b: &[u8]) -> (r: String)
    ensures
        r@ == hex_of(b@),
{
    hex::encode(b)
}

/// The lower-case hex HMAC-SHA256 of `body` under `secret`.
pub fn compute_hmac(body: &[u8], secret: &str) -> (r: String)
    ensures
        r@ == hex_of(hmac_sha256_of(secret.spec_bytes(), body@)),
{
    let tag = hmac_sha256(secret.as_bytes(), body);
    to_hex(tag.as_slice())
}

/// The bytes of `sha256=`.
pub open spec fn sha_prefix() -> Seq<u8> {
    seq![115u8, 104u8, 97u8, 50u8, 53u8, 54u8, 61u8]
}

/// `b` with every leading `sha256=` removed.
pub open spec fn strip_sha_prefix(b: Seq<u8>) -> Seq<u8>
    decreases b.len(),
{
    if b.len() >= 7 && b.take(7) == sha_prefix() {
        strip_sha_prefix(b.skip(7))
    } else {
        b
    }
}

/// Why a webhook signature was refused.
#[derive(Debug, Clone, Copy, PartialEq, Eq, Structural)]
pub enum SignatureError {
    /// A secret is configured but the request carries no signature.
    Missing,
    /// The signature does not match the body.
    Mismatch,
}

fn starts_with_sha_prefix(b: &[u8], at: usize) -> (r: bool)
    requires
        at <= b@.len(),
    ensures
        r == (b@.len() - at >= 7 && b@.skip(at as int).take(7) == sha_prefix()),
{
    if b.len() - at < 7 {
        return false;
    }
    let r = b[at] == 115u8 && b[at + 1] == 104u8 && b[at + 2] == 97u8 && b[at + 3] == 50u8
        && b[at + 4] == 53u8 && b[at + 5] == 54u8 && b[at + 6] == 61u8;
    assert(r == (b@.skip(at as int).take(7) =~= sha_prefix()));
    r
}

fn strip_prefix_bytes(b: &[u8]) -> (r: Vec<u8>)
    ensures
        r@ == strip_sha_prefix(b@),
{
    let n = b.len();
    let mut at: usize = 0;
    assert(b@.skip(0) =~= b@);
    loop
        invariant
            n == b@.len(),
            at <= b@.len(),
            strip_sha_prefix(b@.skip(at as int)) == strip_sha_prefix(b@),
        ensures
            at <= b@.len(),
            b@.skip(at as int) == strip_sha_prefix(b@),
        decreases b@.len() - at,
    {
        if !starts_with_sha_prefix(b, at) {
            assert(strip_sha_prefix(b@.skip(at as int)) == b@.skip(at as int));
            break;
        }
        assert(b@.skip(at as int).skip(7) =~= b@.skip(at + 7));
        at = at + 7;
    }
    let mut r: Vec<u8> = Vec::new();
    let mut i: usize = at;
    while i < b.len()
        invariant
            at <= i <= b@.len(),
            r@ == b@.subrange(at as int, i as int),
        decreases b@.len() - i,
    {
        r.push(b[i]);
        i = i + 1;
    }
    assert(r@ =~= b@.skip(at as int));
    r
}

/// Whether a signature header value carries `expected`, once every leading
/// `sha256=` is removed from it.
pub fn signature_matches(expected: &str, provided: &str) -> (r: bool)
    ensures
        r == (strip_sha_prefix(provided.spec_bytes()) == expected.spec_bytes()),
{
    let p = strip_prefix_bytes(provided.as_bytes());
    constant_time_eq(expected.as_bytes(), p.as_slice())
}

/// Checks a webhook signature header against the raw body.
///
/// With no secret configured every request passes. With one, a missing header is
/// `Missing`, and a header that is not the hex HMAC-SHA256 of the body (with or
/// without a `sha256=` prefix) is `Mismatch`.
pub fn verify_hmac(body: &[u8], header_value: Option<&str>, secret: Option<&str>) -> (r: Result<
    (),
    SignatureError,
>)
    ensures
        secret is None ==> r is Ok,
        secret is Some && header_value is None ==> r == Err::<(), _>(SignatureError::Missing),
        secret matches Some(s) ==> (header_value matches Some(h) ==> (r is Ok <==> strip_sha_prefix(
            h.spec_bytes(),
        ) == encode_utf8(hex_of(hmac_sha256_of(s.spec_bytes(), body@))))),
        r is Err ==> r == Err::<(), _>(SignatureError::Missing) || r == Err::<(), _>(
            SignatureError::Mismatch,
        ),
{
    let secret = match secret {
        None => return Ok(()),
        Some(s) => s,
    };
    let provided = match header_value {
        None => return Err(SignatureError::Missing),
        Some(h) => h,
    };
    let expected = compute_hmac(body, secret);
    if signature_matches(expected.as_str(), provided) {
        Ok(())
    } else {
        Err(SignatureError::Mismatch)
    }
}

/// Compares two byte strings without stopping at the first difference.
///
/// Inputs of different lengths are unequal at once; otherwise every byte pair
/// is folded into one accumulator before the result is read.
pub fn constant_time_eq(a: &[u8], b: &[u8]) -> (r: bool)
    ensures
        r == (a@ == b@),
{
    if a.len() != b.len() {
        return false;
    }
    let mut acc: u8 = 0;
    let mut i: usize = 0;
    while i < a.len()
        invariant
            a.len() == b.len(),
            i <= a.len(),
            (acc == 0) == (forall|j: int| 0 <= j < i ==> a@[j] == b@[j]),
        decreases a.len() - i,
    {
        let x = a[i];
        let y = b[i];
        let d: u8 = x ^ y;
        assert((d == 0) == (x == y)) by (bit_vector)
            requires
                d == x ^ y,
        ;
        let n: u8 = acc | d;
        assert((n == 0) == (acc == 0 && d == 0)) by (bit_vector)
            requires
                n == acc | d,
        ;
        acc = n;
        i = i + 1;
    }
    assert(acc == 0 ==> a@ =~= b@);
    acc == 0
}

} // verus!

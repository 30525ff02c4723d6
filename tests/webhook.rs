use chatgate::webhook::{compute_hmac, constant_time_eq, signature_matches, verify_hmac, SignatureError};

#[test]
fn hmac_valid_signature() {
    let body = b"hello world";
    let secret = "mysecret";
    let sig = compute_hmac(body, secret);
    assert!(verify_hmac(body, Some(&sig), Some(secret)).is_ok());
}

#[test]
fn hmac_invalid_signature() {
    let body = b"hello world";
    assert!(verify_hmac(body, Some("deadbeef"), Some("mysecret")).is_err());
}

#[test]
fn hmac_missing_header_with_secret() {
    let body = b"hello world";
    assert!(verify_hmac(body, None, Some("mysecret")).is_err());
}

#[test]
fn hmac_no_secret_always_ok() {
    let body = b"hello world";
    assert!(verify_hmac(body, None, None).is_ok());
}

#[test]
fn hmac_github_sha256_prefix_stripped() {
    let body = b"payload";
    let secret = "ghs";
    let raw = compute_hmac(body, secret);
    let prefixed = format!("sha256={raw}");
    assert!(verify_hmac(body, Some(&prefixed), Some(secret)).is_ok());
}

#[test]
fn constant_time_eq_matching() {
    assert!(constant_time_eq(b"abc", b"abc"));
}

#[test]
fn constant_time_eq_different_length() {
    assert!(!constant_time_eq(b"abc", b"abcd"));
}

#[test]
fn constant_time_eq_different_content() {
    assert!(!constant_time_eq(b"abc", b"xyz"));
}

#[test]
fn hmac_matches_known_vector() {
    let tag = compute_hmac(b"The quick brown fox jumps over the lazy dog", "key");
    assert_eq!(tag, "f7bc83f430538424b13298e6aa6fb143ef4d59a14946175997479dbc2d1a3cd8");
}

#[test]
fn hmac_errors_name_their_cause() {
    assert_eq!(verify_hmac(b"x", None, Some("s")), Err(SignatureError::Missing));
    assert_eq!(verify_hmac(b"x", Some("00"), Some("s")), Err(SignatureError::Mismatch));
}

#[test]
fn signature_prefix_is_stripped_repeatedly() {
    assert!(signature_matches("abc", "sha256=sha256=abc"));
    assert!(signature_matches("abc", "abc"));
    assert!(!signature_matches("abc", "sha256=abd"));
    assert!(!signature_matches("abc", "SHA256=abc"));
}

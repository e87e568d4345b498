//! Admin tokens, passwords and signatures.

use spritexai_pay::auth::{
    issue_token, password_matches, token_at, verify_token, verify_token_at, TOKEN_TTL_SECS,
};
use spritexai_pay::crypto::{sign, verify};

const SECRET: &str = "test-auth-secret";

#[test]
fn round_trips_a_valid_token() {
    let t = issue_token(SECRET);
    assert!(verify_token(SECRET, &t));
}

#[test]
fn rejects_tampered_expiry() {
    let t = issue_token(SECRET);
    let (_, sig) = t.split_once('.').unwrap();
    // Push expiry far into the future but keep the old signature.
    let forged = format!("9999999999.{sig}");
    assert!(!verify_token(SECRET, &forged));
}

#[test]
fn rejects_wrong_secret_and_garbage() {
    let t = issue_token(SECRET);
    assert!(!verify_token("other-secret", &t));
    assert!(!verify_token(SECRET, "not-a-token"));
    assert!(!verify_token(SECRET, "123.deadbeef"));
}

#[test]
fn password_check_is_exact() {
    assert!(password_matches(SECRET, "hunter2", "hunter2"));
    assert!(!password_matches(SECRET, "hunter2", "hunter3"));
    assert!(!password_matches(SECRET, "hunter2", ""));
}

#[test]
fn token_lives_seven_days() {
    let t = token_at(SECRET, 1_000);
    assert_eq!(TOKEN_TTL_SECS, 7 * 24 * 60 * 60);
    assert!(t.starts_with("605800."));
    assert!(verify_token_at(SECRET, &t, 1_000));
    assert!(verify_token_at(SECRET, &t, 605_799));
    assert!(!verify_token_at(SECRET, &t, 605_800));
}

#[test]
fn token_expiry_must_be_a_number() {
    let sig = sign(SECRET.as_bytes(), b"soon");
    assert!(!verify_token_at(SECRET, &format!("soon.{sig}"), 0));
    let plus = sign(SECRET.as_bytes(), b"+5");
    assert!(verify_token_at(SECRET, &format!("+5.{plus}"), 4));
    let large = sign(SECRET.as_bytes(), b"18446744073709551616");
    assert!(!verify_token_at(SECRET, &format!("18446744073709551616.{large}"), 0));
}

#[test]
fn token_near_the_end_of_time_does_not_wrap() {
    let t = token_at(SECRET, u64::MAX);
    assert!(t.starts_with("18446744073709551615."));
}

#[test]
fn issued_token_carries_the_present_time() {
    let t = issue_token(SECRET);
    let (expiry, _) = t.split_once('.').unwrap();
    let expiry: u64 = expiry.parse().unwrap();
    let now = std::time::SystemTime::now()
        .duration_since(std::time::UNIX_EPOCH)
        .unwrap()
        .as_secs();
    assert!(expiry >= now + TOKEN_TTL_SECS - 60);
    assert!(expiry <= now + TOKEN_TTL_SECS + 60);
}

/// A published HMAC-SHA256 vector.
#[test]
fn signature_has_the_published_value() {
    assert_eq!(
        sign(b"Jefe", b"what do ya want for nothing?"),
        "5bdcc146bf60754e6a042426089575c75a003f089d2739839dec58b964ec3843"
    );
}

#[test]
fn signature_verifies_and_tampering_does_not() {
    let sig = sign(b"secret", b"body");
    assert!(verify(b"secret", b"body", &sig));
    assert!(verify(b"secret", b"body", &sig.to_uppercase()));
    assert!(!verify(b"secret", b"bodY", &sig));
    assert!(!verify(b"Secret", b"body", &sig));
    assert!(!verify(b"secret", b"body", "xyz"));
    assert!(!verify(b"secret", b"body", &sig[..62]));
    assert!(!verify(b"secret", b"body", ""));
}

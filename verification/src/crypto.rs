//! HMAC-SHA256 signing and verification.
//!
//! Used on both trust boundaries: inbound SMS payloads from the paired Android forwarder,
//! and outbound webhooks to merchant callback URLs. A signature is written as lower case
//! hexadecimal; comparison is left to the `hmac` crate, which does it in constant time.

use hmac::Mac;
use vstd::prelude::*;

verus! {

// ---- hexadecimal ----

/// The lower case hexadecimal digit of `d`, for `d` below sixteen.
pub open spec fn hex_digit(d: int) -> char {
    if d < 10 {
        (d + '0' as int) as char
    } else {
        (d - 10 + 'a' as int) as char
    }
}

/// The hexadecimal digits, in either case.
pub open spec fn is_hex(c: char) -> bool {
    ||| '0' <= c && c <= '9'
    ||| 'a' <= c && c <= 'f'
    ||| 'A' <= c && c <= 'F'
}

/// The value of a hexadecimal digit.
pub open spec fn hex_value(c: char) -> int {
    if '0' <= c && c <= '9' {
        c as int - '0' as int
    } else if 'a' <= c && c <= 'f' {
        c as int - 'a' as int + 10
    } else {
        c as int - 'A' as int + 10
    }
}

/// `bytes` in hexadecimal, two lower case digits to a byte.
pub open spec fn hex_of(bytes: Seq<u8>) -> Seq<char> {
    Seq::new(
        2 * bytes.len(),
        |i: int|
            if i % 2 == 0 {
                hex_digit(bytes[i / 2] as int / 16)
            } else {
                hex_digit(bytes[i / 2] as int % 16)
            },
    )
}

/// The bytes that `s` writes in hexadecimal, if it does.
pub open spec fn unhex(s: Seq<char>) -> Option<Seq<u8>> {
    if s.len() % 2 == 0 && forall|i: int| 0 <= i < s.len() ==> is_hex(#[trigger] s[i]) {
        Some(Seq::new(s.len() / 2, |i: int| (16 * hex_value(s[2 * i]) + hex_value(s[2 * i + 1])) as u8))
    } else {
        None
    }
}

/// `hex::encode`: two lower case hexadecimal digits to a byte, the high half first.
#[verifier::external_body]
fn hex_encode(bytes: &[u8]) -> (s: String)
    ensures
        s@ == hex_of(bytes@),
{
    hex::encode(bytes)
}

/// `hex::decode`: succeeds exactly on an even number of hexadecimal digits, of either
/// case, and gives the bytes they write.
#[verifier::external_body]
fn hex_decode(s: &str) -> (r: Option<Vec<u8>>)
    ensures
        r is Some <==> unhex(s@) is Some,
        r matches Some(v) ==> unhex(s@) == Some(v@),
{
    hex::decode(s).ok()
}

// ---- the message authentication code ----

/// What HMAC-SHA256 computes of a key and a message.
pub uninterp spec fn hmac_sha256(key: Seq<u8>, message: Seq<u8>) -> Seq<u8>;

/// `Hmac::<Sha256>::finalize` after one `update`: a code of 32 bytes, the same for the same
/// key and message. A key of any length is accepted.
#[verifier::external_body]
fn mac_of(key: &[u8], message: &[u8]) -> (tag: Vec<u8>)
    ensures
        tag@ == hmac_sha256(key@, message@),
        tag@.len() == 32,
{
    let mut mac = hmac::Hmac::<sha2::Sha256>::new_from_slice(key).expect("HMAC accepts any key length");
    mac.update(message);
    mac.finalize().into_bytes().to_vec()
}

/// `Hmac::<Sha256>::verify_slice` after one `update`: accepts a tag exactly when it is the
/// whole code that `finalize` would give.
#[verifier::external_body]
fn mac_matches(key: &[u8], message: &[u8], tag: &[u8]) -> (r: bool)
    ensures
        r == (tag@ == hmac_sha256(key@, message@)),
{
    let mut mac = hmac::Hmac::<sha2::Sha256>::new_from_slice(key).expect("HMAC accepts any key length");
    mac.update(message);
    mac.verify_slice(tag).is_ok()
}

/// The signature of `message` under `key`.
pub open spec fn signature(key: Seq<u8>, message: Seq<u8>) -> Seq<char> {
    hex_of(hmac_sha256(key, message))
}

/// Whether `signature_hex` is a signature of `message` under `key`.
pub open spec fn signed_by(key: Seq<u8>, message: Seq<u8>, signature_hex: Seq<char>) -> bool {
    unhex(signature_hex) == Some(hmac_sha256(key, message))
}

/// Sign `body` with `secret`.
pub fn sign(secret: &[u8], body: &[u8]) -> (s: String)
    ensures
        s@ == signature(secret@, body@),
        s@.len() == 64,
{
    let tag = mac_of(secret, body);
    hex_encode(tag.as_slice())
}

/// Verify a hex-encoded signature against the body. A signature that is not hexadecimal
/// is refused.
pub fn verify(secret: &[u8], body: &[u8], signature_hex: &str) -> (r: bool)
    ensures
        r == signed_by(secret@, body@, signature_hex@),
{
    match hex_decode(signature_hex) {
        Some(tag) => mac_matches(secret, body, tag.as_slice()),
        None => false,
    }
}

// ---- laws ----

/// Decoding hexadecimal gives back the bytes that were encoded.
pub proof fn law_hex_round_trip(bytes: Seq<u8>)
    ensures
        unhex(hex_of(bytes)) == Some(bytes),
{
    let s = hex_of(bytes);
    assert forall|i: int| 0 <= i < s.len() implies is_hex(#[trigger] s[i]) by {
        let b = bytes[i / 2] as int;
        assert(0 <= b / 16 < 16 && 0 <= b % 16 < 16);
    }
    let back = unhex(s).unwrap();
    assert forall|i: int| 0 <= i < bytes.len() implies back[i] == bytes[i] by {
        let b = bytes[i] as int;
        assert((2 * i) % 2 == 0 && (2 * i) / 2 == i);
        assert((2 * i + 1) % 2 == 1 && (2 * i + 1) / 2 == i);
        assert(s[2 * i] == hex_digit(b / 16));
        assert(s[2 * i + 1] == hex_digit(b % 16));
        assert(0 <= b / 16 < 16 && 0 <= b % 16 < 16);
        assert(hex_value(hex_digit(b / 16)) == b / 16);
        assert(hex_value(hex_digit(b % 16)) == b % 16);
        assert(16 * (b / 16) + b % 16 == b);
    }
    assert(back =~= bytes);
}

/// What `sign` writes, `verify` accepts, under the same secret and over the same body.
pub proof fn law_signature_verifies(secret: Seq<u8>, body: Seq<u8>)
    ensures
        signed_by(secret, body, signature(secret, body)),
{
    law_hex_round_trip(hmac_sha256(secret, body));
}

/// `verify` accepts exactly one code for a body: two signatures that it accepts write the
/// same bytes.
pub proof fn law_one_code_per_body(secret: Seq<u8>, body: Seq<u8>, a: Seq<char>, b: Seq<char>)
    requires
        signed_by(secret, body, a),
        signed_by(secret, body, b),
    ensures
        unhex(a) == unhex(b),
{
}

/// The same signature is accepted over two bodies only where the two bodies have the same
/// code: a tampered body passes only on a collision.
pub proof fn law_tampered_body_needs_collision(secret: Seq<u8>, body: Seq<u8>, other: Seq<u8>)
    requires
        signed_by(secret, other, signature(secret, body)),
    ensures
        hmac_sha256(secret, other) == hmac_sha256(secret, body),
{
    law_hex_round_trip(hmac_sha256(secret, body));
}

/// A text is a signature exactly if it writes the code of the message byte by byte, in two
/// hexadecimal digits each, of either case.
pub proof fn law_what_a_signature_is(key: Seq<u8>, message: Seq<u8>, text: Seq<char>)
    ensures
        ({
            let code = hmac_sha256(key, message);
            signed_by(key, message, text) <==> {
                &&& text.len() == 2 * code.len()
                &&& forall|i: int| 0 <= i < text.len() ==> is_hex(#[trigger] text[i])
                &&& forall|i: int|
                    #![trigger code[i]]
                    0 <= i < code.len() ==> 16 * hex_value(text[2 * i]) + hex_value(text[2 * i + 1])
                        == code[i]
            }
        }),
{
    let code = hmac_sha256(key, message);
    if signed_by(key, message, text) {
        let bytes = unhex(text).unwrap();
        assert forall|i: int|
            #![trigger code[i]]
            0 <= i < code.len() implies 16 * hex_value(text[2 * i]) + hex_value(text[2 * i + 1])
            == code[i] by {
            assert(is_hex(text[2 * i]) && is_hex(text[2 * i + 1]));
            assert(bytes[i] == code[i]);
        }
    }
    if text.len() == 2 * code.len() && (forall|i: int|
        0 <= i < text.len() ==> is_hex(#[trigger] text[i])) && (forall|i: int|
        #![trigger code[i]]
        0 <= i < code.len() ==> 16 * hex_value(text[2 * i]) + hex_value(text[2 * i + 1])
            == code[i]) {
        let bytes = unhex(text).unwrap();
        assert(bytes =~= code) by {
            assert forall|i: int| 0 <= i < code.len() implies bytes[i] == #[trigger] code[i] by {}
        }
    }
}

/// A signature is written in lower case hexadecimal digits, two to a byte of the code.
pub proof fn law_signature_is_lower_case(key: Seq<u8>, message: Seq<u8>)
    ensures
        signature(key, message).len() == 2 * hmac_sha256(key, message).len(),
        forall|i: int|
            0 <= i < signature(key, message).len() ==> {
                ||| '0' <= #[trigger] signature(key, message)[i] && signature(key, message)[i]
                    <= '9'
                ||| 'a' <= signature(key, message)[i] && signature(key, message)[i] <= 'f'
            },
{
    let code = hmac_sha256(key, message);
    let s = signature(key, message);
    assert forall|i: int| 0 <= i < s.len() implies ('0' <= #[trigger] s[i] && s[i] <= '9') || ('a'
        <= s[i] && s[i] <= 'f') by {
        let b = code[i / 2] as int;
        assert(0 <= b / 16 < 16 && 0 <= b % 16 < 16);
    }
}

} // verus!

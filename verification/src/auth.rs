//! Admin authentication: single-operator login for the self-hosted console.
//!
//! One admin password, and a stateless signed bearer token so that there is no session
//! table to keep. The token is `<expiry_unix>.<hmac>`, where the code, keyed by the
//! authentication secret, covers the expiry: change the expiry and the signature no longer
//! verifies.

use crate::crypto;
use crate::crypto::{hmac_sha256, law_signature_verifies, signature, signed_by};
use crate::text::{
    chars_of, decimal, decimal_text, find_from, is_digit, lemma_decimal, lemma_position,
    lemma_position_is, numeral, numeral_digits, parse_number, position, string_of,
};
use vstd::prelude::*;
use vstd::utf8::encode_utf8;

verus! {

/// How long an issued token stays valid: seven days, in seconds.
pub const TOKEN_TTL_SECS: u64 = 604_800;

/// `SystemTime::now`, in whole seconds after the Unix epoch; 0 where the clock stands before
/// it. The reading is the machine's and nothing is claimed of it.
#[verifier::external_body]
pub(crate) fn now_secs() -> (now: u64)
{
    std::time::SystemTime::now().duration_since(std::time::UNIX_EPOCH).map(|d| d.as_secs()).unwrap_or(0)
}

// ---- the password ----

/// Whether the two passwords have the same code under the secret.
pub open spec fn same_code(auth_secret: Seq<char>, a: Seq<char>, b: Seq<char>) -> bool {
    hmac_sha256(encode_utf8(auth_secret), encode_utf8(a)) == hmac_sha256(
        encode_utf8(auth_secret),
        encode_utf8(b),
    )
}

/// Check a submitted password against the configured admin one. Both sides are run through
/// the keyed code first, so that the comparison never runs over the raw secret and always
/// compares codes of equal length.
pub fn password_matches(auth_secret: &str, admin_password: &str, submitted: &str) -> (r: bool)
    ensures
        r == same_code(auth_secret@, admin_password@, submitted@),
{
    let expected = crypto::sign(auth_secret.as_bytes(), admin_password.as_bytes());
    proof {
        crypto::law_hex_round_trip(
            hmac_sha256(encode_utf8(auth_secret@), encode_utf8(admin_password@)),
        );
    }
    crypto::verify(auth_secret.as_bytes(), submitted.as_bytes(), expected.as_str())
}

// ---- the token ----

/// The token for a given expiry.
pub open spec fn token_text(auth_secret: Seq<char>, expiry: nat) -> Seq<char> {
    decimal(expiry) + seq!['.'] + signature(
        encode_utf8(auth_secret),
        encode_utf8(decimal(expiry)),
    )
}

/// When a token that is issued at `now` expires.
pub open spec fn expiry_of(now: u64) -> nat {
    if now + TOKEN_TTL_SECS <= u64::MAX {
        (now + TOKEN_TTL_SECS) as nat
    } else {
        u64::MAX as nat
    }
}

/// The part of a token before its first dot: the expiry.
pub open spec fn expiry_part(token: Seq<char>) -> Seq<char> {
    token.take(position(token, '.'))
}

/// The part of a token after its first dot: the signature.
pub open spec fn signature_part(token: Seq<char>) -> Seq<char> {
    token.skip(position(token, '.') + 1)
}

/// Whether a token has two parts, the second being the signature of the first.
pub open spec fn token_signed(auth_secret: Seq<char>, token: Seq<char>) -> bool {
    &&& token.contains('.')
    &&& signed_by(
        encode_utf8(auth_secret),
        encode_utf8(expiry_part(token)),
        signature_part(token),
    )
}

/// Whether a token is well-formed, correctly signed, and not expired at `now`.
pub open spec fn token_valid(auth_secret: Seq<char>, token: Seq<char>, now: u64) -> bool {
    &&& token_signed(auth_secret, token)
    &&& lies_ahead(expiry_part(token), now)
}

/// The token of an expiry and its signature.
pub fn token_of(expiry: u64, sig: &str) -> (token: String)
    ensures
        token@ == decimal(expiry as nat) + seq!['.'] + sig@,
{
    let mut token = decimal_text(expiry);
    token.push('.');
    token.append(sig);
    assert(token@ =~= decimal(expiry as nat) + seq!['.'] + sig@);
    token
}

/// The token that is issued at `now`, valid for [`TOKEN_TTL_SECS`].
pub fn token_at(auth_secret: &str, now: u64) -> (token: String)
    ensures
        token@ == token_text(auth_secret@, expiry_of(now)),
{
    let expiry: u64 = now.saturating_add(TOKEN_TTL_SECS);
    let sig = crypto::sign(auth_secret.as_bytes(), decimal_text(expiry).as_str().as_bytes());
    token_of(expiry, sig.as_str())
}

/// Issue a signed bearer token valid for [`TOKEN_TTL_SECS`] from the present second.
pub fn issue_token(auth_secret: &str) -> (token: String)
    ensures
        exists|now: u64| token@ == #[trigger] token_text(auth_secret@, expiry_of(now)),
{
    let now = now_secs();
    token_at(auth_secret, now)
}

/// The expiry and the signature of a token, if it has two parts.
pub fn split_token(token: &str) -> (r: Option<(String, String)>)
    ensures
        r is Some <==> token@.contains('.'),
        r matches Some(parts) ==> parts.0@ == expiry_part(token@) && parts.1@ == signature_part(
            token@,
        ),
{
    let v = chars_of(token);
    let dot = find_from(&v, '.', 0);
    proof {
        assert(v@.skip(0) =~= token@);
        lemma_position(token@, '.');
    }
    if dot == v.len() {
        return None;
    }
    let expiry = string_of(&v, 0, dot);
    let sig = string_of(&v, dot + 1, v.len());
    assert(expiry@ =~= expiry_part(token@));
    assert(sig@ =~= signature_part(token@));
    Some((expiry, sig))
}

/// Whether an expiry is a number of seconds that lies after `now`.
pub open spec fn lies_ahead(expiry: Seq<char>, now: u64) -> bool {
    numeral(expiry, u64::MAX as int) matches Some(e) && e > now
}

/// Whether an expiry is a number of seconds that lies after `now`.
pub fn unexpired(expiry: &str, now: u64) -> (r: bool)
    ensures
        r == lies_ahead(expiry@, now),
{
    match parse_number(expiry, u64::MAX) {
        Some(e) => e > now,
        None => false,
    }
}

/// Whether the token is well-formed, correctly signed, and not expired at `now`.
pub fn verify_token_at(auth_secret: &str, token: &str, now: u64) -> (r: bool)
    ensures
        r == token_valid(auth_secret@, token@, now),
{
    match split_token(token) {
        Some((expiry, sig)) => crypto::verify(
            auth_secret.as_bytes(),
            expiry.as_str().as_bytes(),
            sig.as_str(),
        ) && unexpired(expiry.as_str(), now),
        None => false,
    }
}

/// Whether the token is well-formed, correctly signed, and not expired at the present
/// second.
pub fn verify_token(auth_secret: &str, token: &str) -> (r: bool)
    ensures
        exists|now: u64| r == #[trigger] token_valid(auth_secret@, token@, now),
        r ==> token_signed(auth_secret@, token@),
{
    let now = now_secs();
    verify_token_at(auth_secret, token, now)
}

// ---- laws ----

/// A token verifies under the secret that issued it, until it expires and no longer.
pub proof fn law_token_round_trip(auth_secret: Seq<char>, expiry: nat, now: u64)
    requires
        expiry <= u64::MAX,
    ensures
        token_valid(auth_secret, token_text(auth_secret, expiry), now) <==> expiry > now,
{
    let d = decimal(expiry);
    let key = encode_utf8(auth_secret);
    let token = token_text(auth_secret, expiry);
    lemma_decimal(expiry);
    assert forall|j: int| 0 <= j < d.len() implies token[j] != '.' by {
        assert(is_digit(d[j]));
        assert(token[j] == d[j]);
    }
    assert(token[d.len() as int] == '.');
    lemma_position_is(token, '.', d.len() as int);
    lemma_position(token, '.');
    assert(expiry_part(token) =~= d);
    assert(signature_part(token) =~= signature(key, encode_utf8(d)));
    law_signature_verifies(key, encode_utf8(d));
    assert(is_digit(d[0]));
    assert(numeral_digits(d) == d);
}

/// A token that is issued at `now` is accepted for seven days and refused from then on.
pub proof fn law_issued_token_lives_seven_days(auth_secret: Seq<char>, issued: u64, now: u64)
    requires
        issued + TOKEN_TTL_SECS <= u64::MAX,
    ensures
        token_valid(auth_secret, token_text(auth_secret, expiry_of(issued)), now) <==> now < issued
            + TOKEN_TTL_SECS,
{
    law_token_round_trip(auth_secret, expiry_of(issued), now);
}

/// Putting another expiry before the signature of an issued token gives a token that is
/// accepted only where the two expiries have the same code under the secret.
pub proof fn law_tampered_expiry_needs_collision(
    auth_secret: Seq<char>,
    expiry: nat,
    forged: Seq<char>,
    now: u64,
)
    requires
        !forged.contains('.'),
        token_valid(
            auth_secret,
            forged + seq!['.'] + signature(encode_utf8(auth_secret), encode_utf8(decimal(expiry))),
            now,
        ),
    ensures
        hmac_sha256(encode_utf8(auth_secret), encode_utf8(forged)) == hmac_sha256(
            encode_utf8(auth_secret),
            encode_utf8(decimal(expiry)),
        ),
{
    let key = encode_utf8(auth_secret);
    let sig = signature(key, encode_utf8(decimal(expiry)));
    let token = forged + seq!['.'] + sig;
    assert forall|j: int| 0 <= j < forged.len() implies token[j] != '.' by {
        assert(token[j] == forged[j]);
    }
    assert(token[forged.len() as int] == '.');
    lemma_position_is(token, '.', forged.len() as int);
    assert(expiry_part(token) =~= forged);
    assert(signature_part(token) =~= sig);
    crypto::law_hex_round_trip(hmac_sha256(key, encode_utf8(decimal(expiry))));
}

/// The configured password itself is always accepted.
pub proof fn law_right_password_matches(auth_secret: Seq<char>, password: Seq<char>)
    ensures
        same_code(auth_secret, password, password),
{
}

/// A token is accepted exactly if the text after its first dot is the code, in hexadecimal, of
/// the text before it, and that is a number of seconds after `now`.
pub proof fn law_what_a_valid_token_is(auth_secret: Seq<char>, token: Seq<char>, now: u64)
    ensures
        token_valid(auth_secret, token, now) <==> exists|p: int|
            {
                &&& 0 <= p < token.len()
                &&& #[trigger] token[p] == '.'
                &&& !token.take(p).contains('.')
                &&& crypto::unhex(token.skip(p + 1)) == Some(
                    hmac_sha256(encode_utf8(auth_secret), encode_utf8(token.take(p))),
                )
                &&& numeral(token.take(p), u64::MAX as int) is Some
                &&& numeral(token.take(p), u64::MAX as int).unwrap() > now
            },
{
    lemma_position(token, '.');
    let q = position(token, '.');
    if token_valid(auth_secret, token, now) {
        assert(token[q] == '.');
        assert forall|j: int| 0 <= j < q implies token.take(q)[j] != '.' by {
            assert(token.take(q)[j] == token[j]);
        }
    }
    if exists|p: int|
        {
            &&& 0 <= p < token.len()
            &&& #[trigger] token[p] == '.'
            &&& !token.take(p).contains('.')
            &&& crypto::unhex(token.skip(p + 1)) == Some(
                hmac_sha256(encode_utf8(auth_secret), encode_utf8(token.take(p))),
            )
            &&& numeral(token.take(p), u64::MAX as int) is Some
            &&& numeral(token.take(p), u64::MAX as int).unwrap() > now
        } {
        let p = choose|p: int|
            {
                &&& 0 <= p < token.len()
                &&& #[trigger] token[p] == '.'
                &&& !token.take(p).contains('.')
                &&& crypto::unhex(token.skip(p + 1)) == Some(
                    hmac_sha256(encode_utf8(auth_secret), encode_utf8(token.take(p))),
                )
                &&& numeral(token.take(p), u64::MAX as int) is Some
                &&& numeral(token.take(p), u64::MAX as int).unwrap() > now
            };
        assert forall|j: int| 0 <= j < p implies token[j] != '.' by {
            assert(token.take(p)[j] == token[j]);
        }
        lemma_position_is(token, '.', p);
        assert(token.contains(token[p]));
    }
}

/// A token is issued for 604800 seconds, which are seven days, or to the end of the clock
/// where that comes before.
pub proof fn law_expiry_is_seven_days_ahead(now: u64)
    ensures
        expiry_of(now) == if now + 604_800 <= u64::MAX {
            now + 604_800
        } else {
            u64::MAX as int
        },
{
}

/// A password is accepted exactly if it has the same code under the secret as the admin's.
pub proof fn law_wrong_password_needs_collision(
    auth_secret: Seq<char>,
    admin: Seq<char>,
    submitted: Seq<char>,
)
    ensures
        same_code(auth_secret, admin, submitted) <==> hmac_sha256(
            encode_utf8(auth_secret),
            encode_utf8(admin),
        ) == hmac_sha256(encode_utf8(auth_secret), encode_utf8(submitted)),
{
}

} // verus!

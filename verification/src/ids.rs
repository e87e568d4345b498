//! Identifiers: a short prefix that says what a row is, then a random part.

use crate::crypto::is_hex;
use crate::text::joined;
use vstd::prelude::*;

verus! {

/// The form of the random part: 32 lower case hexadecimal digits.
pub open spec fn is_random_part(s: Seq<char>) -> bool {
    &&& s.len() == 32
    &&& forall|i: int|
        0 <= i < s.len() ==> is_hex(#[trigger] s[i]) && !('A' <= s[i] && s[i] <= 'F')
}

/// `uuid::Uuid::new_v4` in its simple form: 32 lower case hexadecimal digits, without
/// hyphens. Which digits they are is left to the operating system's randomness; that two
/// calls differ is likely, not certain, and is not claimed.
#[verifier::external_body]
pub(crate) fn random_part() -> (s: String)
    ensures
        is_random_part(s@),
{
    uuid::Uuid::new_v4().simple().to_string()
}

/// An identifier: `prefix`, then the random part `random`.
pub fn make_id(prefix: &str, random: &str) -> (id: String)
    ensures
        id@ == prefix@ + random@,
{
    joined(prefix, random)
}

/// A fresh identifier with `prefix`.
pub fn fresh_id(prefix: &str) -> (id: String)
    ensures
        exists|random: Seq<char>| is_random_part(random) && id@ == prefix@ + random,
{
    let random = random_part();
    make_id(prefix, random.as_str())
}

} // verus!

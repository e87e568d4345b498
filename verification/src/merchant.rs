//! Merchant API keys: the drop-in authentication layer.
//!
//! A merchant's site authenticates its checkout calls with an API key that holds scopes. Keys
//! are stored hashed, with the same keyed digest as device tokens; the raw `spk_…` key is
//! handed out exactly once, when it is created, and never stored in the clear.

use crate::crypto;
use crate::crypto::{hmac_sha256, law_hex_round_trip, signature};
use crate::ids::{is_random_part, make_id, random_part};
use crate::json;
use crate::json::{list_in, list_text};
use crate::text::{opt_view, texts_view};
use vstd::prelude::*;
use vstd::utf8::encode_utf8;

verus! {

/// The key of the digest: another than that of device tokens, so that the two kinds of
/// secret are hashed apart.
pub const KEY_DOMAIN: &'static str = "api-key";

/// A request for a key.
#[derive(Debug)]
pub struct CreateApiKey {
    pub label: Option<String>,
    /// Both scopes when left out or empty: a full-access merchant key.
    pub scopes: Option<Vec<String>>,
}

/// A new key, as it is handed out.
#[derive(Debug)]
pub struct NewApiKey {
    pub id: String,
    pub label: Option<String>,
    pub scopes: Vec<String>,
    /// The raw key, shown once. Only its digest is stored.
    pub api_key: String,
}

/// A key as it is listed. It has no room for the key or its digest.
#[derive(Debug)]
pub struct ApiKeyRow {
    pub id: String,
    pub label: Option<String>,
    pub scopes: String,
    pub status: String,
    pub created_at: String,
    pub last_used_at: Option<String>,
}

/// What a request handler learns of the key that was admitted.
#[derive(Debug)]
pub struct KeyContext {
    pub id: String,
    pub scopes: Vec<String>,
}

/// A new key, as it is stored.
#[derive(Debug)]
pub struct StoredKey {
    pub id: String,
    pub key_sha256: String,
    pub label: Option<String>,
    /// A JSON list of texts.
    pub scopes: String,
}

/// What verifying reads of a stored key.
#[derive(Debug)]
pub struct KeyRecord {
    pub id: String,
    pub key_sha256: String,
    pub scopes: String,
    pub status: String,
}

/// The digest under which a key is stored.
pub open spec fn digest_of(raw: Seq<char>) -> Seq<char> {
    signature(encode_utf8(KEY_DOMAIN@), encode_utf8(raw))
}

/// The digest under which a key is stored.
pub fn key_digest(raw: &str) -> (s: String)
    ensures
        s@ == digest_of(raw@),
{
    crypto::sign(KEY_DOMAIN.as_bytes(), raw.as_bytes())
}

/// The scopes of a key that asks for these.
pub open spec fn granted(asked: Option<Vec<String>>) -> Seq<Seq<char>> {
    match asked {
        Some(scopes) if scopes@.len() > 0 => texts_view(scopes@),
        _ => seq!["create_payment"@, "verify_payment"@],
    }
}

/// Whether a key was made as asked, with the given random parts.
pub open spec fn is_made(
    made: (NewApiKey, StoredKey),
    req: CreateApiKey,
    id: Seq<char>,
    a: Seq<char>,
    b: Seq<char>,
) -> bool {
    let (key, stored) = made;
    &&& key.id@ == "ak_"@ + id
    &&& key.label == req.label
    &&& texts_view(key.scopes@) == granted(req.scopes)
    &&& key.api_key@ == "spk_"@ + a + b
    &&& stored.id@ == key.id@
    &&& stored.key_sha256@ == digest_of(key.api_key@)
    &&& opt_view(stored.label) == opt_view(req.label)
    &&& stored.scopes@ == list_text(granted(req.scopes))
    &&& list_in(stored.scopes@) == Some(granted(req.scopes))
}

/// Make a key, with the given random parts of its identifier and of the key itself.
pub fn create_api_key_with(id: &str, a: &str, b: &str, req: CreateApiKey) -> (made: (
    NewApiKey,
    StoredKey,
))
    ensures
        is_made(made, req, id@, a@, b@),
{
    let ghost asked = req.scopes;
    let id = make_id("ak_", id);
    let mut raw = make_id("spk_", a);
    raw.append(b);
    let key_sha256 = key_digest(raw.as_str());
    let mut scopes: Vec<String> = match req.scopes {
        Some(scopes) => scopes,
        None => Vec::new(),
    };
    if scopes.len() == 0 {
        scopes.push("create_payment".to_owned());
        scopes.push("verify_payment".to_owned());
        assert(texts_view(scopes@) =~= granted(asked));
    }
    let stored_scopes = match json::write_list(&scopes) {
        Some(text) => text,
        None => "[]".to_owned(),
    };
    let label = crate::text::clone_opt(&req.label);
    let stored = StoredKey { id: id.clone(), key_sha256, label, scopes: stored_scopes };
    (NewApiKey { id, label: req.label, scopes, api_key: raw }, stored)
}

/// Make a key under a fresh identifier. The key itself is two random parts long.
pub fn create_api_key(req: CreateApiKey) -> (made: (NewApiKey, StoredKey))
    ensures
        exists|id: Seq<char>, a: Seq<char>, b: Seq<char>|
            is_random_part(id) && is_random_part(a) && is_random_part(b) && #[trigger] is_made(
                made,
                req,
                id,
                a,
                b,
            ),
{
    let id = random_part();
    let a = random_part();
    let b = random_part();
    create_api_key_with(id.as_str(), a.as_str(), b.as_str(), req)
}

// ---- verifying ----

/// Whether a record is that of an active key with this digest.
pub open spec fn is_active_key(k: KeyRecord, digest: Seq<char>) -> bool {
    k.key_sha256@ == digest && k.status@ == "active"@
}

/// The first record of an active key with this digest.
pub open spec fn record_of(keys: Seq<KeyRecord>, digest: Seq<char>) -> Option<KeyRecord>
    decreases keys.len(),
{
    if keys.len() == 0 {
        None
    } else if is_active_key(keys[0], digest) {
        Some(keys[0])
    } else {
        record_of(keys.skip(1), digest)
    }
}

/// The scopes that a stored text holds; none where it is no list of texts.
pub open spec fn scopes_in(text: Seq<char>) -> Seq<Seq<char>> {
    match list_in(text) {
        Some(list) => list,
        None => Seq::empty(),
    }
}

/// The scopes that a stored text holds; none where it is no list of texts.
pub fn parse_scopes(raw: &str) -> (r: Vec<String>)
    ensures
        texts_view(r@) == scopes_in(raw@),
{
    match json::read_list(raw) {
        Some(list) => list,
        None => {
            let none: Vec<String> = Vec::new();
            assert(texts_view(none@) =~= Seq::empty());
            none
        },
    }
}

/// Whether a scope is among others.
pub fn holds_scope(scopes: &Vec<String>, scope: &str) -> (r: bool)
    ensures
        r == texts_view(scopes@).contains(scope@),
{
    let ghost all = texts_view(scopes@);
    let mut i: usize = 0;
    while i < scopes.len()
        invariant
            i <= scopes.len(),
            all == texts_view(scopes@),
            forall|j: int| 0 <= j < i ==> #[trigger] all[j] != scope@,
        decreases scopes.len() - i,
    {
        if scopes[i].as_str().eq(scope) {
            assert(all[i as int] == scope@);
            return true;
        }
        assert(all[i as int] != scope@);
        i = i + 1;
    }
    false
}

/// The key that is admitted, given the scopes that its record holds.
pub fn context_for(id: String, scopes: Vec<String>, required_scope: &str) -> (r: Option<KeyContext>)
    ensures
        r is Some <==> texts_view(scopes@).contains(required_scope@),
        r matches Some(ctx) ==> ctx.id == id && ctx.scopes == scopes,
{
    if holds_scope(&scopes, required_scope) {
        Some(KeyContext { id, scopes })
    } else {
        None
    }
}

/// Whether a raw key is admitted for a scope: it is stored, active, and holds the scope.
pub open spec fn is_admitted(keys: Seq<KeyRecord>, raw: Seq<char>, scope: Seq<char>) -> bool {
    match record_of(keys, digest_of(raw)) {
        Some(k) => scopes_in(k.scopes@).contains(scope),
        None => false,
    }
}

/// Where the first record of an active key with this digest stands.
pub fn active_key(keys: &Vec<KeyRecord>, digest: &str) -> (r: Option<usize>)
    ensures
        match r {
            Some(i) => i < keys@.len() && record_of(keys@, digest@) == Some(keys@[i as int]),
            None => record_of(keys@, digest@) is None,
        },
{
    let mut i: usize = 0;
    assert(keys@.skip(0) =~= keys@);
    while i < keys.len()
        invariant
            i <= keys.len(),
            record_of(keys@, digest@) == record_of(keys@.skip(i as int), digest@),
        decreases keys.len() - i,
    {
        let k = &keys[i];
        if k.key_sha256.as_str().eq(digest) && k.status.as_str().eq("active") {
            return Some(i);
        }
        assert(keys@.skip(i as int).skip(1) =~= keys@.skip(i + 1));
        i = i + 1;
    }
    None
}

/// Verify that a raw key holds `required_scope`, against the stored keys with its digest or
/// any more. None on an unknown or revoked key, or a missing scope.
pub fn verify_api_key(keys: &Vec<KeyRecord>, raw: &str, required_scope: &str) -> (r: Option<
    KeyContext,
>)
    ensures
        r is Some <==> is_admitted(keys@, raw@, required_scope@),
        r matches Some(ctx) ==> (record_of(keys@, digest_of(raw@)) matches Some(k) && ctx.id@
            == k.id@ && texts_view(ctx.scopes@) == scopes_in(k.scopes@)),
{
    let digest = key_digest(raw);
    match active_key(keys, digest.as_str()) {
        Some(i) => context_for(
            keys[i].id.clone(),
            parse_scopes(keys[i].scopes.as_str()),
            required_scope,
        ),
        None => None,
    }
}

// ---- laws ----

/// A key opens exactly the scopes that it was made with, as long as it is active.
pub proof fn law_key_opens_its_scopes(
    made: (NewApiKey, StoredKey),
    req: CreateApiKey,
    id: Seq<char>,
    a: Seq<char>,
    b: Seq<char>,
    record: KeyRecord,
    scope: Seq<char>,
)
    requires
        is_made(made, req, id, a, b),
        record.key_sha256@ == made.1.key_sha256@,
        record.scopes@ == made.1.scopes@,
        record.status@ == "active"@,
    ensures
        is_admitted(seq![record], made.0.api_key@, scope) <==> granted(req.scopes).contains(scope),
{
    assert(record_of(seq![record], digest_of(made.0.api_key@)) == Some(record));
}

/// A key that is not active, because it was revoked, opens nothing.
pub proof fn law_revoked_key_opens_nothing(
    keys: Seq<KeyRecord>,
    raw: Seq<char>,
    scope: Seq<char>,
)
    requires
        forall|i: int|
            0 <= i < keys.len() && (#[trigger] keys[i]).key_sha256@ == digest_of(raw)
                ==> keys[i].status@ != "active"@,
    ensures
        !is_admitted(keys, raw, scope),
{
    lemma_no_record(keys, digest_of(raw));
}

/// Where no active key has the digest, there is no record.
proof fn lemma_no_record(keys: Seq<KeyRecord>, digest: Seq<char>)
    requires
        forall|i: int|
            0 <= i < keys.len() && (#[trigger] keys[i]).key_sha256@ == digest
                ==> keys[i].status@ != "active"@,
    ensures
        record_of(keys, digest) is None,
    decreases keys.len(),
{
    if keys.len() > 0 {
        let t = keys.skip(1);
        assert forall|i: int| 0 <= i < t.len() && (#[trigger] t[i]).key_sha256@ == digest implies
            t[i].status@ != "active"@ by {
            assert(t[i] == keys[i + 1]);
        }
        lemma_no_record(t, digest);
    }
}

/// A text that was never handed out as a key opens something only where it has the same code
/// as one that was.
pub proof fn law_forged_key_needs_collision(raw: Seq<char>, key: Seq<char>)
    requires
        digest_of(raw) == digest_of(key),
    ensures
        hmac_sha256(encode_utf8(KEY_DOMAIN@), encode_utf8(raw)) == hmac_sha256(
            encode_utf8(KEY_DOMAIN@),
            encode_utf8(key),
        ),
{
    law_hex_round_trip(hmac_sha256(encode_utf8(KEY_DOMAIN@), encode_utf8(raw)));
    law_hex_round_trip(hmac_sha256(encode_utf8(KEY_DOMAIN@), encode_utf8(key)));
}

/// A raw key is admitted for a scope exactly if the first active record with its digest holds
/// that scope.
pub proof fn law_what_is_admitted(keys: Seq<KeyRecord>, raw: Seq<char>, scope: Seq<char>)
    ensures
        is_admitted(keys, raw, scope) <==> exists|i: int|
            {
                &&& 0 <= i < keys.len()
                &&& (#[trigger] keys[i]).key_sha256@ == digest_of(raw)
                &&& keys[i].status@ == "active"@
                &&& forall|j: int|
                    0 <= j < i ==> (#[trigger] keys[j]).key_sha256@ != digest_of(raw)
                        || keys[j].status@ != "active"@
                &&& list_in(keys[i].scopes@) is Some
                &&& list_in(keys[i].scopes@).unwrap().contains(scope)
            },
{
    let d = digest_of(raw);
    lemma_first_record(keys, d);
    if is_admitted(keys, raw, scope) {
        let i = choose|i: int|
            {
                &&& 0 <= i < keys.len()
                &&& is_active_key(#[trigger] keys[i], d)
                &&& forall|j: int| 0 <= j < i ==> !is_active_key(#[trigger] keys[j], d)
                &&& record_of(keys, d) == Some(keys[i])
            };
        assert(keys[i].key_sha256@ == d);
        assert forall|j: int| 0 <= j < i implies (#[trigger] keys[j]).key_sha256@ != d
            || keys[j].status@ != "active"@ by {
            assert(!is_active_key(keys[j], d));
        }
    }
    if exists|i: int|
        {
            &&& 0 <= i < keys.len()
            &&& (#[trigger] keys[i]).key_sha256@ == digest_of(raw)
            &&& keys[i].status@ == "active"@
            &&& forall|j: int|
                0 <= j < i ==> (#[trigger] keys[j]).key_sha256@ != digest_of(raw)
                    || keys[j].status@ != "active"@
            &&& list_in(keys[i].scopes@) is Some
            &&& list_in(keys[i].scopes@).unwrap().contains(scope)
        } {
        let i = choose|i: int|
            {
                &&& 0 <= i < keys.len()
                &&& (#[trigger] keys[i]).key_sha256@ == digest_of(raw)
                &&& keys[i].status@ == "active"@
                &&& forall|j: int|
                    0 <= j < i ==> (#[trigger] keys[j]).key_sha256@ != digest_of(raw)
                        || keys[j].status@ != "active"@
                &&& list_in(keys[i].scopes@) is Some
                &&& list_in(keys[i].scopes@).unwrap().contains(scope)
            };
        assert(is_active_key(keys[i], d));
        assert forall|j: int| 0 <= j < i implies !is_active_key(#[trigger] keys[j], d) by {}
        let k = choose|k: int|
            {
                &&& 0 <= k < keys.len()
                &&& is_active_key(#[trigger] keys[k], d)
                &&& forall|j: int| 0 <= j < k ==> !is_active_key(#[trigger] keys[j], d)
                &&& record_of(keys, d) == Some(keys[k])
            };
        assert(i == k) by {
            if i < k {
                assert(!is_active_key(keys[i], d));
            }
            if k < i {
                assert(!is_active_key(keys[k], d));
            }
        }
    }
}

/// The record that is found is the first active one with the digest.
proof fn lemma_first_record(keys: Seq<KeyRecord>, digest: Seq<char>)
    ensures
        record_of(keys, digest) is None ==> forall|i: int|
            0 <= i < keys.len() ==> !is_active_key(#[trigger] keys[i], digest),
        record_of(keys, digest) is Some ==> exists|i: int|
            {
                &&& 0 <= i < keys.len()
                &&& is_active_key(#[trigger] keys[i], digest)
                &&& forall|j: int| 0 <= j < i ==> !is_active_key(#[trigger] keys[j], digest)
                &&& record_of(keys, digest) == Some(keys[i])
            },
    decreases keys.len(),
{
    if keys.len() > 0 && !is_active_key(keys[0], digest) {
        let t = keys.skip(1);
        lemma_first_record(t, digest);
        if record_of(t, digest) is None {
            assert forall|i: int| 0 <= i < keys.len() implies !is_active_key(
                #[trigger] keys[i],
                digest,
            ) by {
                if i > 0 {
                    assert(t[i - 1] == keys[i]);
                }
            }
        } else {
            let i = choose|i: int|
                {
                    &&& 0 <= i < t.len()
                    &&& is_active_key(#[trigger] t[i], digest)
                    &&& forall|j: int| 0 <= j < i ==> !is_active_key(#[trigger] t[j], digest)
                    &&& record_of(t, digest) == Some(t[i])
                };
            assert(keys[i + 1] == t[i]);
            assert forall|j: int| 0 <= j < i + 1 implies !is_active_key(
                #[trigger] keys[j],
                digest,
            ) by {
                if j > 0 {
                    assert(t[j - 1] == keys[j]);
                }
            }
        }
    }
}

/// A key is given the scopes that were asked for, all of them and no other; both where none
/// were.
pub proof fn law_scopes_are_granted_as_asked(asked: Option<Vec<String>>)
    ensures
        asked matches Some(s) && s@.len() > 0 ==> granted(asked) == texts_view(asked.unwrap()@),
        asked is None || asked.unwrap()@.len() == 0 ==> granted(asked) == seq![
            "create_payment"@,
            "verify_payment"@,
        ],
{
}

/// What is stored of a key is its digest, never the key; what is handed out begins with its
/// mark and holds both random parts.
pub proof fn law_only_the_digest_is_stored(
    made: (NewApiKey, StoredKey),
    req: CreateApiKey,
    id: Seq<char>,
    a: Seq<char>,
    b: Seq<char>,
)
    requires
        is_made(made, req, id, a, b),
    ensures
        made.0.api_key@ == "spk_"@ + a + b,
        made.0.id@ == "ak_"@ + id,
        made.1.id@ == made.0.id@,
        made.0.label == req.label,
        opt_view(made.1.label) == opt_view(req.label),
        texts_view(made.0.scopes@) == granted(req.scopes),
        list_in(made.1.scopes@) == Some(granted(req.scopes)),
        crypto::unhex(made.1.key_sha256@) == Some(
            hmac_sha256(encode_utf8("api-key"@), encode_utf8(made.0.api_key@)),
        ),
{
    law_hex_round_trip(hmac_sha256(encode_utf8("api-key"@), encode_utf8(made.0.api_key@)));
}

} // verus!

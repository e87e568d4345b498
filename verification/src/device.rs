//! Gateway configuration and device pairing.
//!
//! A device, an Android phone that forwards its SMS, pairs once: a random token is made,
//! handed out exactly once, and only its digest is stored. From then on the device
//! authenticates with the raw token, which is hashed and looked up. Tokens belong to one
//! device each, and can be revoked.

use crate::crypto;
use crate::crypto::{hmac_sha256, law_hex_round_trip, signature};
use crate::ids::{fresh_id, is_random_part, make_id, random_part};
use crate::merchant;
use crate::merchant::KEY_DOMAIN;
use crate::text::{clone_opt, opt_view};
use vstd::prelude::*;
use vstd::utf8::encode_utf8;

verus! {

/// The key of the digest of tokens.
pub const TOKEN_DOMAIN: &'static str = "device-token";

// ---- gateways ----

/// A request to register a gateway.
#[derive(Debug)]
pub struct RegisterGateway {
    pub gateway: String,
    pub label: Option<String>,
    pub account_msisdn: Option<String>,
}

/// A registered gateway.
#[derive(Debug)]
pub struct GatewayConfig {
    pub id: String,
    pub gateway: String,
    pub label: Option<String>,
    pub account_msisdn: Option<String>,
    pub enabled: i64,
    pub created_at: String,
}

/// A gateway to insert.
#[derive(Debug)]
pub struct NewGateway {
    pub id: String,
    pub gateway: String,
    pub label: Option<String>,
    pub account_msisdn: Option<String>,
}

/// Register a gateway under a fresh identifier.
pub fn register_gateway(req: RegisterGateway) -> (g: NewGateway)
    ensures
        exists|random: Seq<char>| is_random_part(random) && g.id@ == "gw_"@ + random,
        g.gateway == req.gateway,
        g.label == req.label,
        g.account_msisdn == req.account_msisdn,
{
    NewGateway {
        id: fresh_id("gw_"),
        gateway: req.gateway,
        label: req.label,
        account_msisdn: req.account_msisdn,
    }
}

// ---- devices ----

/// A request to pair a device.
#[derive(Debug)]
pub struct PairDevice {
    pub label: Option<String>,
}

/// A paired device, as it is handed out once: the raw token is never stored.
#[derive(Debug)]
pub struct PairedDevice {
    pub id: String,
    pub label: Option<String>,
    pub pairing_token: String,
}

/// A device as it is listed. It has no room for the token or its digest.
#[derive(Debug)]
pub struct Device {
    pub id: String,
    pub label: Option<String>,
    pub status: String,
    pub last_seen_at: Option<String>,
    pub created_at: String,
}

/// A device to insert.
#[derive(Debug)]
pub struct NewDevice {
    pub id: String,
    pub label: Option<String>,
    pub token_sha256: String,
}

/// What the exchange of a token reads of a device.
#[derive(Debug)]
pub struct DeviceRecord {
    pub id: String,
    pub token_sha256: String,
    pub status: String,
}

/// The digest under which a token is stored.
pub open spec fn digest_of(token: Seq<char>) -> Seq<char> {
    signature(encode_utf8(TOKEN_DOMAIN@), encode_utf8(token))
}

/// The digest under which a token is stored.
pub fn token_digest(token: &str) -> (s: String)
    ensures
        s@ == digest_of(token@),
{
    crypto::sign(TOKEN_DOMAIN.as_bytes(), token.as_bytes())
}

/// Whether a device was paired as asked, with the given random parts.
pub open spec fn is_paired(
    made: (PairedDevice, NewDevice),
    req: PairDevice,
    id: Seq<char>,
    a: Seq<char>,
    b: Seq<char>,
) -> bool {
    let (paired, stored) = made;
    &&& paired.id@ == "dev_"@ + id
    &&& paired.label == req.label
    &&& paired.pairing_token@ == "spx_"@ + a + b
    &&& stored.id@ == paired.id@
    &&& opt_view(stored.label) == opt_view(req.label)
    &&& stored.token_sha256@ == digest_of(paired.pairing_token@)
}

/// Pair a device, with the given random parts of its identifier and of its token.
pub fn pair_device_with(id: &str, a: &str, b: &str, req: PairDevice) -> (made: (
    PairedDevice,
    NewDevice,
))
    ensures
        is_paired(made, req, id@, a@, b@),
{
    let id = make_id("dev_", id);
    let mut token = make_id("spx_", a);
    token.append(b);
    let token_sha256 = token_digest(token.as_str());
    let stored = NewDevice { id: id.clone(), label: clone_opt(&req.label), token_sha256 };
    (PairedDevice { id, label: req.label, pairing_token: token }, stored)
}

/// Pair a device under a fresh identifier. The token is two random parts long.
pub fn pair_device(req: PairDevice) -> (made: (PairedDevice, NewDevice))
    ensures
        exists|id: Seq<char>, a: Seq<char>, b: Seq<char>|
            is_random_part(id) && is_random_part(a) && is_random_part(b) && #[trigger] is_paired(
                made,
                req,
                id,
                a,
                b,
            ),
{
    let id = random_part();
    let a = random_part();
    let b = random_part();
    pair_device_with(id.as_str(), a.as_str(), b.as_str(), req)
}

/// The first active device with this digest.
pub open spec fn device_of(devices: Seq<DeviceRecord>, digest: Seq<char>) -> Option<Seq<char>>
    decreases devices.len(),
{
    if devices.len() == 0 {
        None
    } else if devices[0].token_sha256@ == digest && devices[0].status@ == "active"@ {
        Some(devices[0].id@)
    } else {
        device_of(devices.skip(1), digest)
    }
}

/// The first active device with this digest.
pub fn active_device(devices: &Vec<DeviceRecord>, digest: &str) -> (r: Option<String>)
    ensures
        opt_view(r) == device_of(devices@, digest@),
{
    let mut i: usize = 0;
    assert(devices@.skip(0) =~= devices@);
    while i < devices.len()
        invariant
            i <= devices.len(),
            device_of(devices@, digest@) == device_of(devices@.skip(i as int), digest@),
        decreases devices.len() - i,
    {
        let d = &devices[i];
        if d.token_sha256.as_str().eq(digest) && d.status.as_str().eq("active") {
            return Some(d.id.clone());
        }
        assert(devices@.skip(i as int).skip(1) =~= devices@.skip(i + 1));
        i = i + 1;
    }
    None
}

/// Exchange a pairing token for the identifier of the active device that it belongs to,
/// against the stored devices with its digest or any more. None on an unknown or revoked
/// token.
pub fn exchange_token(devices: &Vec<DeviceRecord>, token: &str) -> (r: Option<String>)
    ensures
        opt_view(r) == device_of(devices@, digest_of(token@)),
{
    active_device(devices, token_digest(token).as_str())
}

// ---- laws ----

/// The token of a paired device is exchanged for that device as long as it is active, and
/// for nothing once it was revoked.
pub proof fn law_token_names_its_device(
    made: (PairedDevice, NewDevice),
    req: PairDevice,
    id: Seq<char>,
    a: Seq<char>,
    b: Seq<char>,
    record: DeviceRecord,
)
    requires
        is_paired(made, req, id, a, b),
        record.id@ == made.1.id@,
        record.token_sha256@ == made.1.token_sha256@,
    ensures
        device_of(seq![record], digest_of(made.0.pairing_token@)) == if record.status@ == "active"@ {
            Some(made.0.id@)
        } else {
            None
        },
{
    assert(seq![record].skip(1) =~= Seq::<DeviceRecord>::empty());
    reveal_with_fuel(device_of, 2);
}

/// API keys and device tokens are hashed apart, under keys that differ: a key and a token are
/// stored alike only where HMAC-SHA256 gives the same code under the two.
pub proof fn law_keys_and_tokens_are_hashed_apart(token: Seq<char>, key: Seq<char>)
    requires
        digest_of(token) == merchant::digest_of(key),
    ensures
        TOKEN_DOMAIN@ != KEY_DOMAIN@,
        hmac_sha256(encode_utf8(TOKEN_DOMAIN@), encode_utf8(token)) == hmac_sha256(
            encode_utf8(KEY_DOMAIN@),
            encode_utf8(key),
        ),
{
    reveal_strlit("device-token");
    reveal_strlit("api-key");
    assert(TOKEN_DOMAIN@.len() != KEY_DOMAIN@.len());
    law_hex_round_trip(hmac_sha256(encode_utf8(TOKEN_DOMAIN@), encode_utf8(token)));
    law_hex_round_trip(hmac_sha256(encode_utf8(KEY_DOMAIN@), encode_utf8(key)));
}

/// A token is exchanged for the first active device with its digest, and for nothing where
/// there is none.
pub proof fn law_what_a_token_is_exchanged_for(devices: Seq<DeviceRecord>, digest: Seq<char>)
    ensures
        device_of(devices, digest) is None <==> forall|i: int|
            0 <= i < devices.len() ==> (#[trigger] devices[i]).token_sha256@ != digest
                || devices[i].status@ != "active"@,
        device_of(devices, digest) matches Some(id) ==> exists|i: int|
            {
                &&& 0 <= i < devices.len()
                &&& (#[trigger] devices[i]).id@ == id
                &&& devices[i].token_sha256@ == digest
                &&& devices[i].status@ == "active"@
                &&& forall|j: int|
                    0 <= j < i ==> (#[trigger] devices[j]).token_sha256@ != digest
                        || devices[j].status@ != "active"@
            },
    decreases devices.len(),
{
    if devices.len() > 0 {
        let d = devices[0];
        if !(d.token_sha256@ == digest && d.status@ == "active"@) {
            let t = devices.skip(1);
            law_what_a_token_is_exchanged_for(t, digest);
            if device_of(t, digest) is None {
                assert forall|i: int| 0 <= i < devices.len() implies (
                #[trigger] devices[i]).token_sha256@ != digest || devices[i].status@
                    != "active"@ by {
                    if i > 0 {
                        assert(t[i - 1] == devices[i]);
                    }
                }
            } else {
                let id = device_of(t, digest).unwrap();
                let i = choose|i: int|
                    {
                        &&& 0 <= i < t.len()
                        &&& (#[trigger] t[i]).id@ == id
                        &&& t[i].token_sha256@ == digest
                        &&& t[i].status@ == "active"@
                        &&& forall|j: int|
                            0 <= j < i ==> (#[trigger] t[j]).token_sha256@ != digest || t[j].status@
                                != "active"@
                    };
                assert(devices[i + 1] == t[i]);
                assert forall|j: int| 0 <= j < i + 1 implies (
                #[trigger] devices[j]).token_sha256@ != digest || devices[j].status@
                    != "active"@ by {
                    if j > 0 {
                        assert(t[j - 1] == devices[j]);
                    }
                }
            }
        }
    }
}

/// What is stored of a token is its digest, never the token; what is handed out begins with
/// its mark and holds both random parts.
pub proof fn law_only_the_digest_is_stored(
    made: (PairedDevice, NewDevice),
    req: PairDevice,
    id: Seq<char>,
    a: Seq<char>,
    b: Seq<char>,
)
    requires
        is_paired(made, req, id, a, b),
    ensures
        made.0.pairing_token@ == "spx_"@ + a + b,
        made.0.id@ == "dev_"@ + id,
        made.1.id@ == made.0.id@,
        made.0.label == req.label,
        opt_view(made.1.label) == opt_view(req.label),
        crypto::unhex(made.1.token_sha256@) == Some(
            hmac_sha256(encode_utf8("device-token"@), encode_utf8(made.0.pairing_token@)),
        ),
{
    law_hex_round_trip(
        hmac_sha256(encode_utf8("device-token"@), encode_utf8(made.0.pairing_token@)),
    );
}

} // verus!

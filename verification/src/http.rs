//! The decisions behind the HTTP surface: who is let in, which status an outcome has, and
//! what is said of an error.
//!
//! An answer that is not a success is an [`ApiError`], made here and nowhere else, so that
//! the policy on status codes stands in one place. What went wrong inside is never told to
//! the caller.

use crate::auth::{
    expiry_of, law_issued_token_lives_seven_days, now_secs, password_matches, same_code, token_at,
    token_signed, token_text, token_valid, verify_token_at, TOKEN_TTL_SECS,
};
use crate::charge::ChargeError;
use crate::checkout::{CheckoutError, PublicCharge};
use crate::checkout_page;
use crate::checkout_page::{card, debug_text, page, way_back, NOT_FOUND_CARD};
use crate::crypto;
use crate::crypto::{law_signature_verifies, signature, signed_by};
use crate::invoice::InvoiceError;
use crate::merchant::KeyContext;
use crate::payment_link::LinkError;
use crate::sms::IngestError;
use crate::text::{has_text, occurs, opt_str_view, strip, without_prefix};
use vstd::prelude::*;
use vstd::utf8::encode_utf8;

verus! {

pub const OK: u16 = 200;

pub const BAD_REQUEST: u16 = 400;

pub const UNAUTHORIZED: u16 = 401;

pub const NOT_FOUND: u16 = 404;

pub const CONFLICT: u16 = 409;

pub const UNPROCESSABLE_ENTITY: u16 = 422;

pub const INTERNAL_SERVER_ERROR: u16 = 500;

pub const SERVICE_UNAVAILABLE: u16 = 503;

/// An answer that is not a success: its status code, and what is said.
#[derive(Debug)]
pub struct ApiError {
    pub code: u16,
    pub message: String,
}

impl ApiError {
    /// Whether the answer has this status and says this.
    pub open spec fn says(self, code: u16, message: Seq<char>) -> bool {
        self.code == code && self.message@ == message
    }

    /// The answer with this status that says this.
    pub fn new(code: u16, message: &str) -> (r: ApiError)
        ensures
            r.says(code, message@),
    {
        ApiError { code, message: message.to_owned() }
    }
}

/// The status of a charge error.
pub open spec fn charge_code(e: ChargeError) -> u16 {
    match e {
        ChargeError::InvalidAmount => UNPROCESSABLE_ENTITY,
        ChargeError::DuplicateOrder(_) => CONFLICT,
        ChargeError::NotFound => NOT_FOUND,
        ChargeError::Db(_) => INTERNAL_SERVER_ERROR,
    }
}

/// The status of an ingestion error.
pub open spec fn ingest_code(e: IngestError) -> u16 {
    match e {
        IngestError::UnknownGateway => UNPROCESSABLE_ENTITY,
        IngestError::Parse(_) => UNPROCESSABLE_ENTITY,
        IngestError::Duplicate => CONFLICT,
        IngestError::Charge(_) => INTERNAL_SERVER_ERROR,
        IngestError::Db(_) => INTERNAL_SERVER_ERROR,
    }
}

/// The status of a checkout error.
pub open spec fn checkout_code(e: CheckoutError) -> u16 {
    match e {
        CheckoutError::InvalidAmount => UNPROCESSABLE_ENTITY,
        CheckoutError::NotFound => NOT_FOUND,
        CheckoutError::DomainNotAllowed => UNPROCESSABLE_ENTITY,
        CheckoutError::Db(_) => INTERNAL_SERVER_ERROR,
    }
}

/// The status of an invoice error.
pub open spec fn invoice_code(e: InvoiceError) -> u16 {
    match e {
        InvoiceError::InvalidAmount => UNPROCESSABLE_ENTITY,
        InvoiceError::NotFound => NOT_FOUND,
        InvoiceError::Db(_) => INTERNAL_SERVER_ERROR,
    }
}

/// The status of a payment link error.
pub open spec fn link_code(e: LinkError) -> u16 {
    match e {
        LinkError::NotFound => NOT_FOUND,
        LinkError::Inactive => CONFLICT,
        LinkError::AmountRequired => UNPROCESSABLE_ENTITY,
        LinkError::Db(_) => INTERNAL_SERVER_ERROR,
    }
}

/// What is said with a status: the error's message, unless something went wrong inside.
pub open spec fn told(code: u16, message: Seq<char>) -> Seq<char> {
    if code == INTERNAL_SERVER_ERROR {
        "internal error"@
    } else {
        message
    }
}

/// The answer to a failed database operation.
pub fn db_error() -> (r: ApiError)
    ensures
        r.says(INTERNAL_SERVER_ERROR, "internal error"@),
{
    ApiError::new(INTERNAL_SERVER_ERROR, "internal error")
}

/// The answer with a status, on an error with a message.
fn answer(code: u16, message: &str) -> (r: ApiError)
    ensures
        r.says(code, told(code, message@)),
{
    if code == INTERNAL_SERVER_ERROR {
        db_error()
    } else {
        ApiError::new(code, message)
    }
}

/// The answer to a charge error.
pub fn charge_failure(e: &ChargeError) -> (r: ApiError)
    ensures
        r.says(charge_code(*e), told(charge_code(*e), e.message_text())),
{
    let code: u16 = match e {
        ChargeError::InvalidAmount => UNPROCESSABLE_ENTITY,
        ChargeError::DuplicateOrder(_) => CONFLICT,
        ChargeError::NotFound => NOT_FOUND,
        ChargeError::Db(_) => INTERNAL_SERVER_ERROR,
    };
    answer(code, e.message().as_str())
}

/// The answer to an ingestion error.
pub fn ingest_failure(e: &IngestError) -> (r: ApiError)
    ensures
        r.says(ingest_code(*e), told(ingest_code(*e), e.message_text())),
{
    let code: u16 = match e {
        IngestError::UnknownGateway => UNPROCESSABLE_ENTITY,
        IngestError::Parse(_) => UNPROCESSABLE_ENTITY,
        IngestError::Duplicate => CONFLICT,
        IngestError::Charge(_) => INTERNAL_SERVER_ERROR,
        IngestError::Db(_) => INTERNAL_SERVER_ERROR,
    };
    answer(code, e.message().as_str())
}

/// The answer to a checkout error.
pub fn checkout_failure(e: &CheckoutError) -> (r: ApiError)
    ensures
        r.says(checkout_code(*e), told(checkout_code(*e), e.message_text())),
{
    let code: u16 = match e {
        CheckoutError::InvalidAmount => UNPROCESSABLE_ENTITY,
        CheckoutError::NotFound => NOT_FOUND,
        CheckoutError::DomainNotAllowed => UNPROCESSABLE_ENTITY,
        CheckoutError::Db(_) => INTERNAL_SERVER_ERROR,
    };
    answer(code, e.message().as_str())
}

/// The answer to an invoice error.
pub fn invoice_failure(e: &InvoiceError) -> (r: ApiError)
    ensures
        r.says(invoice_code(*e), told(invoice_code(*e), e.message_text())),
{
    let code: u16 = match e {
        InvoiceError::InvalidAmount => UNPROCESSABLE_ENTITY,
        InvoiceError::NotFound => NOT_FOUND,
        InvoiceError::Db(_) => INTERNAL_SERVER_ERROR,
    };
    answer(code, e.message().as_str())
}

/// The answer to a payment link error.
pub fn link_failure(e: &LinkError) -> (r: ApiError)
    ensures
        r.says(link_code(*e), told(link_code(*e), e.message_text())),
{
    let code: u16 = match e {
        LinkError::NotFound => NOT_FOUND,
        LinkError::Inactive => CONFLICT,
        LinkError::AmountRequired => UNPROCESSABLE_ENTITY,
        LinkError::Db(_) => INTERNAL_SERVER_ERROR,
    };
    answer(code, e.message().as_str())
}

/// What a look-up found, or the answer that it found nothing.
pub fn found<T>(row: Option<T>, message: &str) -> (r: Result<T, ApiError>)
    ensures
        row matches Some(t) ==> r == Ok::<T, ApiError>(t),
        row is None ==> (r matches Err(e) && e.says(NOT_FOUND, message@)),
{
    match row {
        Some(t) => Ok(t),
        None => Err(ApiError::new(NOT_FOUND, message)),
    }
}

/// Whether a write changed anything, or the answer that there was nothing to change.
pub fn touched(rows: u64, message: &str) -> (r: Result<(), ApiError>)
    ensures
        rows > 0 ==> r is Ok,
        rows == 0 ==> (r matches Err(e) && e.says(NOT_FOUND, message@)),
{
    if rows > 0 {
        Ok(())
    } else {
        Err(ApiError::new(NOT_FOUND, message))
    }
}

// ---- health ----

/// The status code and the word for whether the database answers.
pub fn health(db_ok: bool) -> (r: (u16, &'static str))
    ensures
        db_ok ==> r.0 == OK && r.1@ == "ok"@,
        !db_ok ==> r.0 == SERVICE_UNAVAILABLE && r.1@ == "degraded"@,
{
    if db_ok {
        (OK, "ok")
    } else {
        (SERVICE_UNAVAILABLE, "degraded")
    }
}

// ---- the admin ----

/// Whether login is required: whether there is an admin password.
pub fn auth_status(admin_password: Option<&str>) -> (r: bool)
    ensures
        r == (admin_password is Some),
{
    admin_password.is_some()
}

/// Exchange the admin password for a signed bearer token, at a given second. When there is
/// no admin password, there is nothing to log into.
pub fn login_at(
    auth_secret: &str,
    admin_password: Option<&str>,
    submitted: &str,
    now: u64,
) -> (r: Result<String, ApiError>)
    ensures
        match admin_password {
            None => r matches Err(e) && e.says(NOT_FOUND, "auth is not enabled"@),
            Some(admin) => if same_code(auth_secret@, admin@, submitted@) {
                r matches Ok(token) && token@ == token_text(auth_secret@, expiry_of(now))
            } else {
                r matches Err(e) && e.says(UNAUTHORIZED, "invalid password"@)
            },
        },
{
    let admin = match admin_password {
        Some(admin) => admin,
        None => {
            return Err(ApiError::new(NOT_FOUND, "auth is not enabled"));
        },
    };
    if !password_matches(auth_secret, admin, submitted) {
        return Err(ApiError::new(UNAUTHORIZED, "invalid password"));
    }
    Ok(token_at(auth_secret, now))
}

/// Exchange the admin password for a signed bearer token, at the present second.
pub fn login(auth_secret: &str, admin_password: Option<&str>, submitted: &str) -> (r: Result<
    String,
    ApiError,
>)
    ensures
        match admin_password {
            None => r matches Err(e) && e.says(NOT_FOUND, "auth is not enabled"@),
            Some(admin) => if same_code(auth_secret@, admin@, submitted@) {
                r matches Ok(token) && exists|now: u64|
                    token@ == #[trigger] token_text(auth_secret@, expiry_of(now))
            } else {
                r matches Err(e) && e.says(UNAUTHORIZED, "invalid password"@)
            },
        },
{
    login_at(auth_secret, admin_password, submitted, now_secs())
}

/// The token of an `Authorization` header: what follows `Bearer `, empty where nothing does.
pub open spec fn bearer_of(authorization: Option<Seq<char>>) -> Seq<char> {
    match authorization {
        Some(v) => match without_prefix(v, "Bearer "@) {
            Some(token) => token,
            None => ""@,
        },
        None => ""@,
    }
}

/// The token of an `Authorization` header, if it is one of a bearer.
fn bearer(authorization: Option<&str>) -> (r: Option<String>)
    ensures
        bearer_of(opt_str_view(authorization)) == match r {
            Some(token) => token@,
            None => ""@,
        },
{
    match authorization {
        Some(v) => strip(v, "Bearer "),
        None => None,
    }
}

/// Guard an admin route at a given second: a valid token is required when there is an admin
/// password, nothing otherwise.
pub fn require_auth_at(
    auth_secret: &str,
    admin_password: Option<&str>,
    authorization: Option<&str>,
    now: u64,
) -> (r: Result<(), ApiError>)
    ensures
        r is Ok <==> (admin_password is None || token_valid(
            auth_secret@,
            bearer_of(opt_str_view(authorization)),
            now,
        )),
        r matches Err(e) ==> e.says(UNAUTHORIZED, "authentication required"@),
{
    if admin_password.is_none() {
        return Ok(());
    }
    let valid = match bearer(authorization) {
        Some(token) => verify_token_at(auth_secret, token.as_str(), now),
        None => verify_token_at(auth_secret, "", now),
    };
    if valid {
        Ok(())
    } else {
        Err(ApiError::new(UNAUTHORIZED, "authentication required"))
    }
}

/// Guard an admin route at the present second.
pub fn require_auth(
    auth_secret: &str,
    admin_password: Option<&str>,
    authorization: Option<&str>,
) -> (r: Result<(), ApiError>)
    ensures
        admin_password is None ==> r is Ok,
        admin_password is Some && r is Ok ==> token_signed(
            auth_secret@,
            bearer_of(opt_str_view(authorization)),
        ),
        admin_password is Some ==> exists|now: u64|
            r is Ok <==> #[trigger] token_valid(
                auth_secret@,
                bearer_of(opt_str_view(authorization)),
                now,
            ),
        r matches Err(e) ==> e.says(UNAUTHORIZED, "authentication required"@),
{
    require_auth_at(auth_secret, admin_password, authorization, now_secs())
}

// ---- merchants ----

/// The API key of a request: the header of its own, or else the bearer token.
pub open spec fn key_of(own: Option<Seq<char>>, authorization: Option<Seq<char>>) -> Seq<char> {
    match own {
        Some(key) => key,
        None => bearer_of(authorization),
    }
}

/// The API key of a request, from its `x-sap-api-key` and `Authorization` headers.
pub fn api_key(own: Option<&str>, authorization: Option<&str>) -> (r: String)
    ensures
        r@ == key_of(opt_str_view(own), opt_str_view(authorization)),
{
    match own {
        Some(key) => key.to_owned(),
        None => match bearer(authorization) {
            Some(token) => token,
            None => "".to_owned(),
        },
    }
}

/// The scope that a route requires.
pub fn required_scope(path: &str) -> (r: &'static str)
    ensures
        r@ == if occurs(path@, "verify-payment"@) {
            "verify_payment"@
        } else {
            "create_payment"@
        },
{
    if has_text(path, "verify-payment") {
        "verify_payment"
    } else {
        "create_payment"
    }
}

/// Guard a merchant route: the key that was verified, or the refusal.
pub fn require_api_key(verified: Option<KeyContext>) -> (r: Result<KeyContext, ApiError>)
    ensures
        verified matches Some(ctx) ==> r == Ok::<KeyContext, ApiError>(ctx),
        verified is None ==> (r matches Err(e) && e.says(
            UNAUTHORIZED,
            "invalid API key or insufficient scope"@,
        )),
{
    match verified {
        Some(ctx) => Ok(ctx),
        None => Err(ApiError::new(UNAUTHORIZED, "invalid API key or insufficient scope")),
    }
}

/// The public base URL: the configured one, else the one that the request was sent to.
pub open spec fn base_of(
    configured: Option<Seq<char>>,
    host: Option<Seq<char>>,
    proto: Option<Seq<char>>,
) -> Seq<char> {
    match configured {
        Some(base) => base,
        None => {
            let scheme = match proto {
                Some(p) => p,
                None => "https"@,
            };
            let name = match host {
                Some(h) => h,
                None => "localhost"@,
            };
            scheme + "://"@ + name
        },
    }
}

/// Resolve the public base URL from the configuration and the `Host` and `X-Forwarded-Proto`
/// headers.
pub fn resolve_base_url(configured: Option<&str>, host: Option<&str>, proto: Option<&str>) -> (r:
    String)
    ensures
        r@ == base_of(opt_str_view(configured), opt_str_view(host), opt_str_view(proto)),
{
    match configured {
        Some(base) => base.to_owned(),
        None => {
            let mut r = match proto {
                Some(p) => p.to_owned(),
                None => "https".to_owned(),
            };
            r.append("://");
            match host {
                Some(h) => {
                    r.append(h);
                },
                None => {
                    r.append("localhost");
                },
            }
            r
        },
    }
}

// ---- devices ----

/// The device that a pairing token was exchanged for, or the refusal.
pub fn exchanged(device_id: Option<String>) -> (r: Result<String, ApiError>)
    ensures
        device_id matches Some(id) ==> r == Ok::<String, ApiError>(id),
        device_id is None ==> (r matches Err(e) && e.says(
            UNAUTHORIZED,
            "unknown or revoked pairing token"@,
        )),
{
    match device_id {
        Some(id) => Ok(id),
        None => Err(ApiError::new(UNAUTHORIZED, "unknown or revoked pairing token")),
    }
}

/// Guard the SMS webhook: its `X-Signature` header must be the signature of the exact bytes
/// that were received, before anything in them is trusted.
pub fn require_signature(secret: &str, raw: &[u8], header: Option<&str>) -> (r: Result<(), ApiError>)
    ensures
        match header {
            None => r matches Err(e) && e.says(UNAUTHORIZED, "missing signature"@),
            Some(sig) => if signed_by(encode_utf8(secret@), raw@, sig@) {
                r is Ok
            } else {
                r matches Err(e) && e.says(UNAUTHORIZED, "invalid signature"@)
            },
        },
{
    let sig = match header {
        Some(sig) => sig,
        None => {
            return Err(ApiError::new(UNAUTHORIZED, "missing signature"));
        },
    };
    if crypto::verify(secret.as_bytes(), raw, sig) {
        Ok(())
    } else {
        Err(ApiError::new(UNAUTHORIZED, "invalid signature"))
    }
}

/// The answer to an SMS payload that is signed but cannot be read.
pub fn invalid_body() -> (r: ApiError)
    ensures
        r.says(BAD_REQUEST, "invalid JSON body"@),
{
    ApiError::new(BAD_REQUEST, "invalid JSON body")
}

// ---- the checkout page ----

/// The status and the body of the hosted checkout page.
pub fn checkout_page(view: Result<PublicCharge, CheckoutError>) -> (r: (u16, String))
    ensures
        match view {
            Ok(v) => r.0 == OK && r.1@ == page(
                "Checkout"@,
                card(v, debug_text(v.pay_ref@), debug_text(way_back(v))),
            ),
            Err(CheckoutError::NotFound) => r.0 == NOT_FOUND && r.1@ == page(
                "Payment not found"@,
                NOT_FOUND_CARD@,
            ),
            Err(_) => r.0 == INTERNAL_SERVER_ERROR && r.1@ == "internal error"@,
        },
{
    match view {
        Ok(v) => (OK, checkout_page::render(&v)),
        Err(CheckoutError::NotFound) => (NOT_FOUND, checkout_page::not_found()),
        Err(_) => (INTERNAL_SERVER_ERROR, "internal error".to_owned()),
    }
}

// ---- the reconciliation chat ----

/// Which query answers a question.
#[derive(Debug, PartialEq, Eq, Structural)]
pub enum ChatRoute {
    Reconcile,
    Fraud,
    Unknown,
}

/// The query that an intent names. A model only classifies the question: the numbers come
/// from the query.
pub open spec fn routed(intent: Seq<char>) -> ChatRoute {
    if intent == "reconcile"@ {
        ChatRoute::Reconcile
    } else if intent == "fraud"@ {
        ChatRoute::Fraud
    } else {
        ChatRoute::Unknown
    }
}

/// Route a question by the intent that it was classified as, if it was.
pub fn recon_chat(intent: Option<&str>) -> (r: Result<ChatRoute, ApiError>)
    ensures
        intent matches Some(i) ==> r == Ok::<ChatRoute, ApiError>(routed(i@)),
        intent is None ==> (r matches Err(e) && e.says(
            SERVICE_UNAVAILABLE,
            "reconciliation chat needs an AI provider (set OPENROUTER_API_KEY)"@,
        )),
{
    match intent {
        Some(i) => {
            proof {
                reveal_strlit("reconcile");
                reveal_strlit("fraud");
                assert("reconcile"@.len() != "fraud"@.len());
            }
            if i.eq("reconcile") {
                Ok(ChatRoute::Reconcile)
            } else if i.eq("fraud") {
                Ok(ChatRoute::Fraud)
            } else {
                Ok(ChatRoute::Unknown)
            }
        },
        None => Err(
            ApiError::new(
                SERVICE_UNAVAILABLE,
                "reconciliation chat needs an AI provider (set OPENROUTER_API_KEY)",
            ),
        ),
    }
}

// ---- laws ----

/// The token that a login gives opens the admin routes for seven days, and no longer.
pub proof fn law_login_opens_admin_routes(auth_secret: Seq<char>, logged_in: u64, now: u64)
    requires
        logged_in + TOKEN_TTL_SECS <= u64::MAX,
    ensures
        ({
            let token = token_text(auth_secret, expiry_of(logged_in));
            token_valid(auth_secret, bearer_of(Some("Bearer "@ + token)), now) <==> now < logged_in
                + TOKEN_TTL_SECS
        }),
{
    let token = token_text(auth_secret, expiry_of(logged_in));
    let header = "Bearer "@ + token;
    assert("Bearer "@.is_prefix_of(header));
    assert(header.skip("Bearer "@.len() as int) =~= token);
    law_issued_token_lives_seven_days(auth_secret, logged_in, now);
}

/// A request without a token is refused wherever there is an admin password.
pub proof fn law_no_token_is_refused(auth_secret: Seq<char>, now: u64)
    ensures
        !token_valid(auth_secret, bearer_of(None), now),
{
    reveal_strlit("");
    assert(!""@.contains('.'));
}

/// What the forwarder signs with the shared secret is let in.
pub proof fn law_signed_payload_is_let_in(secret: Seq<char>, raw: Seq<u8>)
    ensures
        signed_by(encode_utf8(secret), raw, signature(encode_utf8(secret), raw)),
{
    law_signature_verifies(encode_utf8(secret), raw);
}

/// What went wrong inside is never told: on every internal error the same is said.
pub proof fn law_internal_errors_are_not_told(message: Seq<char>, other: Seq<char>)
    ensures
        told(INTERNAL_SERVER_ERROR, message) == told(INTERNAL_SERVER_ERROR, other),
{
}

/// The status of a charge error: 500 for a failure inside, 404 for a missing charge, 409 for a
/// taken order and 422 for an amount that is none.
pub proof fn law_status_of_charge_errors(e: ChargeError)
    ensures
        charge_code(e) == 500 <==> e is Db,
        charge_code(e) == 404 <==> e is NotFound,
        charge_code(e) == 409 <==> e is DuplicateOrder,
        charge_code(e) == 422 <==> e is InvalidAmount,
{
}

/// The status of an ingestion error: 409 for a duplicate, 422 for an SMS that cannot be read,
/// and 500 for a failure inside.
pub proof fn law_status_of_ingest_errors(e: IngestError)
    ensures
        ingest_code(e) == 409 <==> e is Duplicate,
        ingest_code(e) == 422 <==> e is UnknownGateway || e is Parse,
        ingest_code(e) == 500 <==> e is Charge || e is Db,
{
}

/// The status of a checkout error: 404 for a missing checkout, 422 for an amount or a URL that
/// is not accepted, and 500 for a failure inside.
pub proof fn law_status_of_checkout_errors(e: CheckoutError)
    ensures
        checkout_code(e) == 404 <==> e is NotFound,
        checkout_code(e) == 422 <==> e is InvalidAmount || e is DomainNotAllowed,
        checkout_code(e) == 500 <==> e is Db,
{
}

/// The status of an invoice error: 404 for a missing invoice, 422 for an amount that is none,
/// and 500 for a failure inside.
pub proof fn law_status_of_invoice_errors(e: InvoiceError)
    ensures
        invoice_code(e) == 404 <==> e is NotFound,
        invoice_code(e) == 422 <==> e is InvalidAmount,
        invoice_code(e) == 500 <==> e is Db,
{
}

/// The status of a link error: 404 for a missing link, 409 for one that is switched off or
/// used up, 422 where an amount is needed, and 500 for a failure inside.
pub proof fn law_status_of_link_errors(e: LinkError)
    ensures
        link_code(e) == 404 <==> e is NotFound,
        link_code(e) == 409 <==> e is Inactive,
        link_code(e) == 422 <==> e is AmountRequired,
        link_code(e) == 500 <==> e is Db,
{
}

/// An error that is the caller's is told as it is; one inside never is.
pub proof fn law_callers_errors_are_told(code: u16, message: Seq<char>)
    ensures
        code != 500 ==> told(code, message) == message,
        code == 500 ==> told(code, message) == "internal error"@,
{
}

/// A bearer token is what follows the word and one space, whatever it is; any other header
/// carries none.
pub proof fn law_bearer_token_is_what_follows(token: Seq<char>, header: Option<Seq<char>>)
    ensures
        bearer_of(Some("Bearer "@ + token)) == token,
        header is None ==> bearer_of(header) == ""@,
        header is Some && !"Bearer "@.is_prefix_of(header.unwrap()) ==> bearer_of(header) == ""@,
{
    let h = "Bearer "@ + token;
    assert("Bearer "@.is_prefix_of(h));
    assert(h.skip("Bearer "@.len() as int) =~= token);
}

/// A request's key comes from its own header where it has that, whatever else it has.
pub proof fn law_own_header_comes_first(
    own: Option<Seq<char>>,
    authorization: Option<Seq<char>>,
    other: Option<Seq<char>>,
)
    ensures
        own matches Some(key) ==> key_of(own, authorization) == key,
        own is None ==> key_of(own, authorization) == bearer_of(authorization),
        own is Some ==> key_of(own, authorization) == key_of(own, other),
{
}

/// The configured base URL counts wherever there is one; otherwise it is made of the request's
/// scheme and host, with `https` and `localhost` in place of what is missing.
pub proof fn law_configured_base_comes_first(
    configured: Option<Seq<char>>,
    host: Option<Seq<char>>,
    proto: Option<Seq<char>>,
)
    ensures
        configured matches Some(base) ==> base_of(configured, host, proto) == base,
        configured is None && host is Some && proto is Some ==> base_of(configured, host, proto)
            == proto.unwrap() + "://"@ + host.unwrap(),
        configured is None ==> base_of(configured, host, None) == base_of(
            configured,
            host,
            Some("https"@),
        ),
        configured is None ==> base_of(configured, None, proto) == base_of(
            configured,
            Some("localhost"@),
            proto,
        ),
{
}

/// A question is answered by the query that its intent names, and by none where it names
/// none.
pub proof fn law_intents_name_their_query(intent: Seq<char>)
    ensures
        routed(intent) is Reconcile <==> intent == "reconcile"@,
        routed(intent) is Fraud <==> intent == "fraud"@,
        routed(intent) is Unknown <==> intent != "reconcile"@ && intent != "fraud"@,
{
    reveal_strlit("reconcile");
    reveal_strlit("fraud");
    assert("reconcile"@.len() != "fraud"@.len());
}

} // verus!

//! Outbound webhooks.
//!
//! Merchant callbacks are delivered at least once, with exponential backoff. A background
//! worker takes the deliveries that are due, posts the signed payload, and reschedules on
//! failure until the attempts are used up. Every request carries a signature over the exact
//! payload bytes, so that merchants can verify authenticity.

use crate::crypto;
use crate::crypto::{law_signature_verifies, signature, signed_by};
use crate::ids::{is_random_part, make_id, random_part};
use crate::text::joined;
use vstd::arithmetic::power2::{lemma2_to64, lemma_pow2_strictly_increases, lemma_pow2_unfold, pow2};
use vstd::prelude::*;
use vstd::utf8::encode_utf8;

verus! {

/// The header that carries the signature of the payload.
pub const SIGNATURE_HEADER: &'static str = "X-SpritexAI-Signature";

/// The header that carries the identifier of the delivery.
pub const IDEMPOTENCY_HEADER: &'static str = "X-SpritexAI-Delivery";

/// How often the worker looks for deliveries that are due.
pub const POLL_INTERVAL_SECS: u64 = 2;

// ---- queueing ----

/// A webhook to be queued. The payload is kept verbatim, so that the signature which the
/// worker computes matches the bytes that the merchant receives.
#[derive(Debug)]
pub struct NewDelivery {
    pub id: String,
    pub charge_id: String,
    pub url: String,
    pub event: String,
    pub payload: String,
}

/// The view of a [`NewDelivery`].
#[verifier::ext_equal]
pub struct DeliveryView {
    pub id: Seq<char>,
    pub charge_id: Seq<char>,
    pub url: Seq<char>,
    pub event: Seq<char>,
    pub payload: Seq<char>,
}

impl View for NewDelivery {
    type V = DeliveryView;

    open spec fn view(&self) -> DeliveryView {
        DeliveryView {
            id: self.id@,
            charge_id: self.charge_id@,
            url: self.url@,
            event: self.event@,
            payload: self.payload@,
        }
    }
}

/// The delivery with a given random part of its identifier.
pub fn enqueue_with(random: &str, charge_id: &str, url: &str, event: &str, payload: &str) -> (d:
    NewDelivery)
    ensures
        d@ == (DeliveryView {
            id: "whd_"@ + random@,
            charge_id: charge_id@,
            url: url@,
            event: event@,
            payload: payload@,
        }),
{
    NewDelivery {
        id: make_id("whd_", random),
        charge_id: charge_id.to_owned(),
        url: url.to_owned(),
        event: event.to_owned(),
        payload: payload.to_owned(),
    }
}

/// Queue a webhook for delivery, under a fresh identifier.
pub fn enqueue(charge_id: &str, url: &str, event: &str, payload: &str) -> (d: NewDelivery)
    ensures
        exists|random: Seq<char>|
            is_random_part(random) && d@ == (DeliveryView {
                id: "whd_"@ + random,
                charge_id: charge_id@,
                url: url@,
                event: event@,
                payload: payload@,
            }),
{
    let random = random_part();
    enqueue_with(random.as_str(), charge_id, url, event, payload)
}

// ---- backoff ----

/// How long to wait after a number of attempts: two to that power in seconds, an hour at
/// most. A count that is negative waits the hour.
pub open spec fn backoff(attempts: int) -> int {
    if 0 <= attempts < 12 {
        pow2(attempts as nat) as int
    } else {
        3600
    }
}

/// Exponential backoff with a ceiling: 2^attempts seconds, capped at 1 hour.
pub fn backoff_seconds(attempts: i64) -> (secs: i64)
    ensures
        secs == backoff(attempts as int),
{
    if attempts < 0 || attempts >= 12 {
        return 3600;
    }
    let mut secs: i64 = 1;
    let mut n: i64 = 0;
    proof {
        lemma2_to64();
    }
    while n < attempts
        invariant
            0 <= n <= attempts < 12,
            secs == pow2(n as nat),
            secs <= 2048,
        decreases attempts - n,
    {
        proof {
            lemma_pow2_unfold((n + 1) as nat);
            lemma2_to64();
            if n + 1 < 11 {
                lemma_pow2_strictly_increases((n + 1) as nat, 11);
            }
        }
        secs = secs * 2;
        n = n + 1;
    }
    secs
}

// ---- delivering ----

/// A delivery that is due.
#[derive(Debug)]
pub struct Due {
    pub id: String,
    pub url: String,
    pub payload: String,
    pub attempts: i64,
    pub max_attempts: i64,
}

/// What is sent to the merchant.
#[derive(Debug)]
pub struct DeliveryRequest {
    pub url: String,
    /// The value of [`SIGNATURE_HEADER`].
    pub signature: String,
    /// The value of [`IDEMPOTENCY_HEADER`].
    pub delivery_id: String,
    pub body: String,
}

/// What came of sending it.
#[derive(Debug)]
pub enum Attempt {
    /// The merchant answered with this status, which reads so.
    Answered { status: u16, status_text: String },
    /// No answer, for this reason.
    Unreachable { reason: String },
}

/// What becomes of a delivery after an attempt.
#[derive(Debug)]
pub enum DeliveryUpdate {
    Delivered { attempts: i64 },
    Failed { attempts: i64, last_error: String },
    Retry { attempts: i64, last_error: String, delay_secs: i64 },
}

/// The view of a [`DeliveryUpdate`].
pub enum DeliveryUpdateView {
    Delivered { attempts: int },
    Failed { attempts: int, last_error: Seq<char> },
    Retry { attempts: int, last_error: Seq<char>, delay_secs: int },
}

impl View for DeliveryUpdate {
    type V = DeliveryUpdateView;

    open spec fn view(&self) -> DeliveryUpdateView {
        match self {
            DeliveryUpdate::Delivered { attempts } => DeliveryUpdateView::Delivered {
                attempts: *attempts as int,
            },
            DeliveryUpdate::Failed { attempts, last_error } => DeliveryUpdateView::Failed {
                attempts: *attempts as int,
                last_error: last_error@,
            },
            DeliveryUpdate::Retry { attempts, last_error, delay_secs } => DeliveryUpdateView::Retry {
                attempts: *attempts as int,
                last_error: last_error@,
                delay_secs: *delay_secs as int,
            },
        }
    }
}

/// The request for a delivery: its payload, signed with `secret`.
pub fn delivery_request(secret: &str, due: &Due) -> (r: DeliveryRequest)
    ensures
        r.url@ == due.url@,
        r.body@ == due.payload@,
        r.delivery_id@ == due.id@,
        r.signature@ == signature(encode_utf8(secret@), encode_utf8(due.payload@)),
{
    let sig = crypto::sign(secret.as_bytes(), due.payload.as_str().as_bytes());
    DeliveryRequest {
        url: due.url.clone(),
        signature: sig,
        delivery_id: due.id.clone(),
        body: due.payload.clone(),
    }
}

/// Whether an attempt succeeded: the merchant answered with a status of the two hundreds.
pub open spec fn succeeded(outcome: Attempt) -> bool {
    outcome matches Attempt::Answered { status, .. } && 200 <= status <= 299
}

/// What is recorded of an attempt that did not succeed.
pub open spec fn error_text(outcome: Attempt) -> Seq<char> {
    match outcome {
        Attempt::Answered { status_text, .. } => "http "@ + status_text@,
        Attempt::Unreachable { reason } => reason@,
    }
}

/// What becomes of a delivery: delivered on success; failed when the attempts are used up;
/// otherwise tried again after the backoff.
pub open spec fn updated(attempts: int, max_attempts: int, outcome: Attempt) -> DeliveryUpdateView {
    if succeeded(outcome) {
        DeliveryUpdateView::Delivered { attempts: attempts + 1 }
    } else if attempts + 1 >= max_attempts {
        DeliveryUpdateView::Failed { attempts: attempts + 1, last_error: error_text(outcome) }
    } else {
        DeliveryUpdateView::Retry {
            attempts: attempts + 1,
            last_error: error_text(outcome),
            delay_secs: backoff(attempts + 1),
        }
    }
}

/// Decide what becomes of a delivery after one more attempt.
pub fn after_attempt(due: &Due, outcome: Attempt) -> (r: DeliveryUpdate)
    requires
        due.attempts < i64::MAX,
    ensures
        r@ == updated(due.attempts as int, due.max_attempts as int, outcome),
{
    let attempts: i64 = due.attempts + 1;
    let last_error = match outcome {
        Attempt::Answered { status, status_text } => {
            if 200 <= status && status <= 299 {
                return DeliveryUpdate::Delivered { attempts };
            }
            joined("http ", status_text.as_str())
        },
        Attempt::Unreachable { reason } => reason,
    };
    if attempts >= due.max_attempts {
        DeliveryUpdate::Failed { attempts, last_error }
    } else {
        DeliveryUpdate::Retry { attempts, last_error, delay_secs: backoff_seconds(attempts) }
    }
}

// ---- laws ----

/// A merchant who holds the secret verifies every delivery: the signature that it carries is
/// one of the body that it carries.
pub proof fn law_merchant_can_verify(secret: Seq<char>, payload: Seq<char>)
    ensures
        signed_by(
            encode_utf8(secret),
            encode_utf8(payload),
            signature(encode_utf8(secret), encode_utf8(payload)),
        ),
{
    law_signature_verifies(encode_utf8(secret), encode_utf8(payload));
}

/// The wait never shrinks from one attempt to a later one, is at least a second, and never
/// exceeds the ceiling of an hour.
pub proof fn law_backoff_grows_then_caps(a: int, b: int)
    requires
        0 <= a <= b,
    ensures
        1 <= backoff(a) <= backoff(b) <= 3600,
{
    lemma2_to64();
    if a < 12 {
        if a < 11 {
            lemma_pow2_strictly_increases(a as nat, 11);
        }
        if 0 < a {
            lemma_pow2_strictly_increases(0, a as nat);
        }
        if b < 12 && a < b {
            lemma_pow2_strictly_increases(a as nat, b as nat);
        }
        if b < 11 {
            lemma_pow2_strictly_increases(b as nat, 11);
        }
    }
}

/// A delivery that is tried again has made one attempt more and still has attempts left, so
/// that it is tried again only so often.
pub proof fn law_retries_are_bounded(attempts: int, max_attempts: int, outcome: Attempt)
    ensures
        updated(attempts, max_attempts, outcome) matches DeliveryUpdateView::Retry {
            attempts: next,
            delay_secs,
            ..
        } ==> next == attempts + 1 && 0 < max_attempts - next < max_attempts - attempts
            && delay_secs == backoff(next),
{
}

/// A delivery of which no attempt succeeds is given up exactly when its attempts are used
/// up, and not before.
pub proof fn law_given_up_only_when_used_up(attempts: int, max_attempts: int, outcome: Attempt)
    requires
        !succeeded(outcome),
    ensures
        updated(attempts, max_attempts, outcome) is Failed <==> attempts + 1 >= max_attempts,
        updated(attempts, max_attempts, outcome) is Retry <==> attempts + 1 < max_attempts,
{
}

/// A delivery is delivered exactly if the merchant answered with a status from 200 to 299.
pub proof fn law_delivered_means_accepted(attempts: int, max_attempts: int, outcome: Attempt)
    ensures
        updated(attempts, max_attempts, outcome) is Delivered <==> match outcome {
            Attempt::Answered { status, .. } => 200 <= status && status <= 299,
            Attempt::Unreachable { .. } => false,
        },
{
}

/// Whatever else the merchant answers, and where there is no answer, the delivery is tried
/// again while it has attempts left, and given up when it has none; what went wrong is kept.
pub proof fn law_refused_delivery_is_tried_again(
    attempts: int,
    max_attempts: int,
    outcome: Attempt,
)
    requires
        outcome matches Attempt::Answered { status, .. } ==> status < 200 || status >= 300,
    ensures
        ({
            let r = updated(attempts, max_attempts, outcome);
            let why = match outcome {
                Attempt::Answered { status_text, .. } => "http "@ + status_text@,
                Attempt::Unreachable { reason } => reason@,
            };
            &&& attempts + 1 < max_attempts ==> (r matches DeliveryUpdateView::Retry {
                attempts: made,
                last_error,
                delay_secs,
            } && made == attempts + 1 && last_error == why && delay_secs == backoff(attempts + 1))
            &&& attempts + 1 >= max_attempts ==> (r matches DeliveryUpdateView::Failed {
                attempts: made,
                last_error,
            } && made == attempts + 1 && last_error == why)
        }),
{
}

/// Every attempt is counted, whatever came of it.
pub proof fn law_every_attempt_is_counted(attempts: int, max_attempts: int, outcome: Attempt)
    ensures
        match updated(attempts, max_attempts, outcome) {
            DeliveryUpdateView::Delivered { attempts: made } => made == attempts + 1,
            DeliveryUpdateView::Failed { attempts: made, .. } => made == attempts + 1,
            DeliveryUpdateView::Retry { attempts: made, .. } => made == attempts + 1,
        },
{
}

/// The wait is a second at first and doubles with every attempt, until an hour is reached; a
/// count below zero waits the hour.
pub proof fn law_backoff_doubles(attempts: int)
    ensures
        backoff(0) == 1,
        attempts >= 0 ==> backoff(attempts + 1) == if 2 * backoff(attempts) <= 3600 {
            2 * backoff(attempts)
        } else {
            3600
        },
        attempts < 0 ==> backoff(attempts) == 3600,
{
    lemma2_to64();
    if 0 <= attempts < 11 {
        lemma_pow2_unfold((attempts + 1) as nat);
        if attempts + 1 < 11 {
            lemma_pow2_strictly_increases((attempts + 1) as nat, 11);
        }
    }
}

} // verus!

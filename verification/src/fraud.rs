//! Fraud and anomaly detection.
//!
//! Deterministic rules over recorded SMS events and charges, with no model in between:
//! signals of money fraud must be auditable and reproducible.
//!
//! 1. Duplicate transaction id: one id seen on more than one gateway. Idempotency, which is
//!    per gateway, cannot catch this.
//! 2. Sender mismatch: the paying number differs from the one that the charge expects.
//! 3. Amount anomaly: a settled amount far above the norm.

use crate::reconcile::inflow;
use crate::sms::{ChargeClaim, SmsEventView};
use crate::text::{decimal, decimal_text, opt_view, signed_decimal, signed_text};
use vstd::prelude::*;

verus! {

/// How many times the average a single settled amount must exceed to be flagged.
pub const AMOUNT_ANOMALY_MULTIPLE: u64 = 10;

/// Nothing is called an amount outlier until there is this much history to have a norm.
pub const MIN_SAMPLE_FOR_AMOUNT: usize = 5;

/// Something suspicious.
#[derive(Debug, PartialEq)]
pub struct Anomaly {
    pub kind: &'static str,
    pub severity: &'static str,
    pub detail: String,
    pub txn_id: Option<String>,
    pub charge_id: Option<String>,
}

/// The view of an [`Anomaly`].
#[verifier::ext_equal]
pub struct AnomalyView {
    pub kind: Seq<char>,
    pub severity: Seq<char>,
    pub detail: Seq<char>,
    pub txn_id: Option<Seq<char>>,
    pub charge_id: Option<Seq<char>>,
}

impl View for Anomaly {
    type V = AnomalyView;

    open spec fn view(&self) -> AnomalyView {
        AnomalyView {
            kind: self.kind@,
            severity: self.severity@,
            detail: self.detail@,
            txn_id: opt_view(self.txn_id),
            charge_id: opt_view(self.charge_id),
        }
    }
}

/// The views of several anomalies.
pub open spec fn anomalies_view(v: Seq<Anomaly>) -> Seq<AnomalyView> {
    Seq::new(v.len(), |i: int| v[i]@)
}

/// All that was found.
#[derive(Debug)]
pub struct FraudReport {
    pub anomaly_count: usize,
    pub anomalies: Vec<Anomaly>,
}

// ---- duplicate transaction ids ----

/// The texts of `s`, each once, in the order in which they first occur.
pub open spec fn distinct(s: Seq<Seq<char>>) -> Seq<Seq<char>>
    decreases s.len(),
{
    if s.len() == 0 {
        Seq::empty()
    } else {
        let front = distinct(s.drop_last());
        if front.contains(s.last()) {
            front
        } else {
            front.push(s.last())
        }
    }
}

/// The transaction ids of the events, in order.
pub open spec fn txn_ids(events: Seq<SmsEventView>) -> Seq<Seq<char>> {
    Seq::new(events.len(), |i: int| events[i].txn_id@)
}

/// The gateways of the events with a transaction id, in order.
pub open spec fn gateways_of(events: Seq<SmsEventView>, txn_id: Seq<char>) -> Seq<Seq<char>>
    decreases events.len(),
{
    if events.len() == 0 {
        Seq::empty()
    } else {
        let front = gateways_of(events.drop_last(), txn_id);
        if events.last().txn_id@ == txn_id {
            front.push(events.last().gateway@)
        } else {
            front
        }
    }
}

/// On how many gateways a transaction id was seen.
pub open spec fn gateway_count(events: Seq<SmsEventView>, txn_id: Seq<char>) -> nat {
    distinct(gateways_of(events, txn_id)).len()
}

/// What is said of a transaction id that was seen on `n` gateways.
pub open spec fn duplicate_anomaly(txn_id: Seq<char>, n: nat) -> AnomalyView {
    AnomalyView {
        kind: "duplicate_txid"@,
        severity: "high"@,
        detail: "txn_id seen on "@ + decimal(n) + " different gateways"@,
        txn_id: Some(txn_id),
        charge_id: None,
    }
}

/// What is said of those of the given transaction ids that were seen on several gateways.
pub open spec fn duplicates_among(events: Seq<SmsEventView>, ids: Seq<Seq<char>>) -> Seq<
    AnomalyView,
>
    decreases ids.len(),
{
    if ids.len() == 0 {
        Seq::empty()
    } else {
        let front = duplicates_among(events, ids.drop_last());
        let n = gateway_count(events, ids.last());
        if n > 1 {
            front.push(duplicate_anomaly(ids.last(), n))
        } else {
            front
        }
    }
}

/// The transaction ids that were recorded under more than one gateway.
pub open spec fn duplicates(events: Seq<SmsEventView>) -> Seq<AnomalyView> {
    duplicates_among(events, distinct(txn_ids(events)))
}

/// Whether a text is among others.
fn is_among(v: &Vec<&str>, s: &str) -> (r: bool)
    ensures
        r == Seq::new(v@.len(), |i: int| v@[i]@).contains(s@),
{
    let ghost all = Seq::new(v@.len(), |i: int| v@[i]@);
    let mut i: usize = 0;
    while i < v.len()
        invariant
            i <= v.len(),
            all == Seq::new(v@.len(), |i: int| v@[i]@),
            forall|j: int| 0 <= j < i ==> #[trigger] all[j] != s@,
        decreases v.len() - i,
    {
        if v[i].eq(s) {
            assert(all[i as int] == s@);
            return true;
        }
        assert(all[i as int] != s@);
        i = i + 1;
    }
    false
}

/// On how many gateways a transaction id was seen.
fn count_gateways(events: &Vec<SmsEventView>, txn_id: &str) -> (n: usize)
    ensures
        n == gateway_count(events@, txn_id@),
{
    let mut seen: Vec<&str> = Vec::new();
    let mut i: usize = 0;
    assert(Seq::new(seen@.len(), |i: int| seen@[i]@) =~= distinct(
        gateways_of(events@.take(0), txn_id@),
    ));
    while i < events.len()
        invariant
            i <= events.len(),
            Seq::new(seen@.len(), |i: int| seen@[i]@) == distinct(
                gateways_of(events@.take(i as int), txn_id@),
            ),
        decreases events.len() - i,
    {
        let ghost before = gateways_of(events@.take(i as int), txn_id@);
        assert(events@.take(i + 1).drop_last() =~= events@.take(i as int));
        if events[i].txn_id.as_str().eq(txn_id) {
            let gateway = events[i].gateway.as_str();
            assert(before.push(gateway@).drop_last() =~= before);
            if !is_among(&seen, gateway) {
                let ghost old_seen = seen@;
                seen.push(gateway);
                assert(Seq::new(seen@.len(), |i: int| seen@[i]@) =~= Seq::new(
                    old_seen.len(),
                    |i: int| old_seen[i]@,
                ).push(gateway@));
            }
        }
        i = i + 1;
    }
    assert(events@.take(events@.len() as int) =~= events@);
    assert(Seq::new(seen@.len(), |i: int| seen@[i]@).len() == seen@.len());
    seen.len()
}

/// Same transaction id recorded under more than one gateway. The unique index on gateway and
/// id permits this, so that it surfaces here.
fn duplicate_txids(events: &Vec<SmsEventView>) -> (r: Vec<Anomaly>)
    ensures
        anomalies_view(r@) == duplicates(events@),
{
    let mut r: Vec<Anomaly> = Vec::new();
    let mut seen: Vec<&str> = Vec::new();
    let mut i: usize = 0;
    proof {
        assert(txn_ids(events@.take(0)) =~= Seq::empty());
        assert(Seq::new(seen@.len(), |i: int| seen@[i]@) =~= distinct(txn_ids(events@.take(0))));
        assert(anomalies_view(r@) =~= Seq::empty());
    }
    while i < events.len()
        invariant
            i <= events.len(),
            Seq::new(seen@.len(), |i: int| seen@[i]@) == distinct(txn_ids(events@.take(i as int))),
            anomalies_view(r@) == duplicates_among(
                events@,
                distinct(txn_ids(events@.take(i as int))),
            ),
        decreases events.len() - i,
    {
        let id = events[i].txn_id.as_str();
        let ghost ids = distinct(txn_ids(events@.take(i as int)));
        assert(txn_ids(events@.take(i + 1)).drop_last() =~= txn_ids(events@.take(i as int)));
        assert(txn_ids(events@.take(i + 1)).last() == id@);
        if !is_among(&seen, id) {
            let ghost old_seen = seen@;
            seen.push(id);
            assert(Seq::new(seen@.len(), |i: int| seen@[i]@) =~= Seq::new(
                old_seen.len(),
                |i: int| old_seen[i]@,
            ).push(id@));
            assert(ids.push(id@).drop_last() =~= ids);
            let n = count_gateways(events, id);
            if n > 1 {
                let mut detail = "txn_id seen on ".to_owned();
                detail.append(decimal_text(n as u64).as_str());
                detail.append(" different gateways");
                let ghost before = anomalies_view(r@);
                let found = Anomaly {
                    kind: "duplicate_txid",
                    severity: "high",
                    detail,
                    txn_id: Some(id.to_owned()),
                    charge_id: None,
                };
                assert(found@ =~= duplicate_anomaly(id@, n as nat));
                r.push(found);
                assert(anomalies_view(r@) =~= before.push(duplicate_anomaly(id@, n as nat)));
            }
        }
        i = i + 1;
    }
    assert(events@.take(events@.len() as int) =~= events@);
    r
}

// ---- sender mismatches ----

/// Whether the number that paid a charge is known, and is another than the charge expects.
pub open spec fn is_mismatch(e: SmsEventView, c: ChargeClaim) -> bool {
    &&& opt_view(e.charge_id) == Some(c.id@)
    &&& e.sender_msisdn is Some
    &&& c.customer_msisdn is Some
    &&& e.sender_msisdn.unwrap()@ != c.customer_msisdn.unwrap()@
}

/// What is said of a charge that was paid by `got`, and not by `expected`.
pub open spec fn mismatch_anomaly(
    charge_id: Seq<char>,
    got: Seq<char>,
    expected: Seq<char>,
) -> AnomalyView {
    AnomalyView {
        kind: "sender_mismatch"@,
        severity: "medium"@,
        detail: "paid by "@ + got + ", charge expected "@ + expected,
        txn_id: None,
        charge_id: Some(charge_id),
    }
}

/// The mismatches of one event.
pub open spec fn mismatches_of(e: SmsEventView, charges: Seq<ChargeClaim>) -> Seq<AnomalyView>
    decreases charges.len(),
{
    if charges.len() == 0 {
        Seq::empty()
    } else {
        let front = mismatches_of(e, charges.drop_last());
        let c = charges.last();
        if is_mismatch(e, c) {
            front.push(
                mismatch_anomaly(
                    c.id@,
                    e.sender_msisdn.unwrap()@,
                    c.customer_msisdn.unwrap()@,
                ),
            )
        } else {
            front
        }
    }
}

/// The matched events whose paying number disagrees with the charge's expected customer.
pub open spec fn mismatches(events: Seq<SmsEventView>, charges: Seq<ChargeClaim>) -> Seq<
    AnomalyView,
>
    decreases events.len(),
{
    if events.len() == 0 {
        Seq::empty()
    } else {
        mismatches(events.drop_last(), charges) + mismatches_of(events.last(), charges)
    }
}

/// What is said of one event and one charge, if they disagree.
fn mismatch_between(e: &SmsEventView, c: &ChargeClaim) -> (r: Option<Anomaly>)
    ensures
        r is Some <==> is_mismatch(*e, *c),
        r matches Some(a) ==> a@ == mismatch_anomaly(
            c.id@,
            e.sender_msisdn.unwrap()@,
            c.customer_msisdn.unwrap()@,
        ),
{
    let charge_id = match &e.charge_id {
        Some(id) => id,
        None => {
            return None;
        },
    };
    let got = match &e.sender_msisdn {
        Some(m) => m,
        None => {
            return None;
        },
    };
    let expected = match &c.customer_msisdn {
        Some(m) => m,
        None => {
            return None;
        },
    };
    if !charge_id.as_str().eq(c.id.as_str()) || got.as_str().eq(expected.as_str()) {
        return None;
    }
    let mut detail = "paid by ".to_owned();
    detail.append(got.as_str());
    detail.append(", charge expected ");
    detail.append(expected.as_str());
    let found = Anomaly {
        kind: "sender_mismatch",
        severity: "medium",
        detail,
        txn_id: None,
        charge_id: Some(c.id.clone()),
    };
    assert(found@ =~= mismatch_anomaly(c.id@, got@, expected@));
    Some(found)
}

/// A matched SMS whose paying number disagrees with the charge's expected customer.
fn sender_mismatches(events: &Vec<SmsEventView>, charges: &Vec<ChargeClaim>) -> (r: Vec<Anomaly>)
    ensures
        anomalies_view(r@) == mismatches(events@, charges@),
{
    let mut r: Vec<Anomaly> = Vec::new();
    let mut i: usize = 0;
    assert(anomalies_view(r@) =~= Seq::empty());
    while i < events.len()
        invariant
            i <= events.len(),
            anomalies_view(r@) == mismatches(events@.take(i as int), charges@),
        decreases events.len() - i,
    {
        let ghost before = anomalies_view(r@);
        let mut j: usize = 0;
        assert(before + mismatches_of(events@[i as int], charges@.take(0)) =~= before);
        while j < charges.len()
            invariant
                i < events.len(),
                j <= charges.len(),
                anomalies_view(r@) == before + mismatches_of(
                    events@[i as int],
                    charges@.take(j as int),
                ),
            decreases charges.len() - j,
        {
            let ghost so_far = anomalies_view(r@);
            assert(charges@.take(j + 1).drop_last() =~= charges@.take(j as int));
            match mismatch_between(&events[i], &charges[j]) {
                Some(found) => {
                    let ghost f = found@;
                    r.push(found);
                    assert(anomalies_view(r@) =~= so_far.push(f));
                    assert(so_far.push(f) =~= before + mismatches_of(
                        events@[i as int],
                        charges@.take(j as int),
                    ).push(f));
                },
                None => {},
            }
            j = j + 1;
        }
        assert(charges@.take(charges@.len() as int) =~= charges@);
        assert(events@.take(i + 1).drop_last() =~= events@.take(i as int));
        i = i + 1;
    }
    assert(events@.take(events@.len() as int) =~= events@);
    r
}

// ---- amount outliers ----

/// The events that settled a charge, in order.
pub open spec fn settled(events: Seq<SmsEventView>) -> Seq<SmsEventView> {
    events.filter(|e: SmsEventView| e.matched == 1)
}

/// `a / n`, rounded to the nearest whole number, halves away from zero.
pub open spec fn rounded(a: int, n: nat) -> int {
    if a >= 0 {
        (2 * a + n) / (2 * n as int)
    } else {
        -((2 * -a + n) / (2 * n as int))
    }
}

/// The nearest number that an amount can be.
pub open spec fn as_amount(n: int) -> int {
    if n > i64::MAX {
        i64::MAX as int
    } else if n < i64::MIN {
        i64::MIN as int
    } else {
        n
    }
}

/// The largest amount that is not out of line with those of the settled events.
pub open spec fn threshold(settled: Seq<SmsEventView>) -> int {
    as_amount(rounded(AMOUNT_ANOMALY_MULTIPLE * inflow(settled), settled.len()))
}

/// The average amount of the settled events, rounded.
pub open spec fn average(settled: Seq<SmsEventView>) -> int {
    rounded(inflow(settled), settled.len())
}

/// What is said of an amount that is out of line.
pub open spec fn outlier_anomaly(txn_id: Seq<char>, amount: int, average: int) -> AnomalyView {
    AnomalyView {
        kind: "amount_anomaly"@,
        severity: "medium"@,
        detail: "amount "@ + signed_decimal(amount) + " minor is >10× the average of "@
            + signed_decimal(average),
        txn_id: Some(txn_id),
        charge_id: None,
    }
}

/// What is said of the amounts above a limit.
pub open spec fn above(settled: Seq<SmsEventView>, limit: int, average: int) -> Seq<AnomalyView>
    decreases settled.len(),
{
    if settled.len() == 0 {
        Seq::empty()
    } else {
        let front = above(settled.drop_last(), limit, average);
        let e = settled.last();
        if e.amount_minor > limit {
            front.push(outlier_anomaly(e.txn_id@, e.amount_minor as int, average))
        } else {
            front
        }
    }
}

/// The settled amounts far above the average of all settled amounts.
pub open spec fn outliers(events: Seq<SmsEventView>) -> Seq<AnomalyView> {
    let s = settled(events);
    if s.len() < MIN_SAMPLE_FOR_AMOUNT {
        Seq::empty()
    } else {
        above(s, threshold(s), average(s))
    }
}

/// `times * m / n` from the quotient and the remainder of `m`.
proof fn lemma_rounded(m: int, n: int, times: int, q: int, r: int)
    requires
        0 < n,
        0 <= m,
        0 <= times,
        m == q * n + r,
        0 <= r < n,
    ensures
        (2 * (times * m) + n) / (2 * n) == times * q + (2 * times * r + n) / (2 * n),
{
    let d = 2 * n;
    let x = 2 * times * r + n;
    assert(2 * (times * m) + n == d * (times * q) + x) by (nonlinear_arith)
        requires
            m == q * n + r,
            d == 2 * n,
            x == 2 * times * r + n,
    ;
    vstd::arithmetic::div_mod::lemma_div_multiples_vanish_fancy(times * q, x % d, d);
    vstd::arithmetic::div_mod::lemma_fundamental_div_mod(x, d);
    let k = x / d;
    assert(d * (times * q) + x == d * (times * q + k) + x % d) by (nonlinear_arith)
        requires
            x == d * k + x % d,
    ;
    vstd::arithmetic::div_mod::lemma_fundamental_div_mod_converse(
        d * (times * q) + x,
        d,
        times * q + k,
        x % d,
    );
}

/// `times * sum / n`, rounded to the nearest whole number.
fn rounded_multiple(sum: i128, n: u64, times: u64) -> (r: i128)
    requires
        0 < n,
        1 <= times <= 10,
        -(n * 0x8000_0000_0000_0000) <= sum <= n * 0x8000_0000_0000_0000,
    ensures
        r == rounded(times * sum, n as nat),
{
    let m: u128 = if sum >= 0 {
        sum as u128
    } else {
        (-sum) as u128
    };
    let d: u128 = n as u128;
    let k: u128 = times as u128;
    let q: u128 = m / d;
    let rest: u128 = m % d;
    proof {
        vstd::arithmetic::div_mod::lemma_fundamental_div_mod(m as int, d as int);
        assert(q <= 0x8000_0000_0000_0000) by (nonlinear_arith)
            requires
                m == d * q + rest,
                0 <= rest,
                m <= d * 0x8000_0000_0000_0000,
                0 < d,
        ;
        assert(k * q <= 10 * 0x8000_0000_0000_0000) by (nonlinear_arith)
            requires
                k <= 10,
                q <= 0x8000_0000_0000_0000,
        ;
        assert(k * rest <= 10 * 0x1_0000_0000_0000_0000) by (nonlinear_arith)
            requires
                k <= 10,
                rest < 0x1_0000_0000_0000_0000,
        ;
        assert(m == q * d + rest) by (nonlinear_arith)
            requires
                m == d * q + rest,
        ;
        lemma_rounded(m as int, d as int, k as int, q as int, rest as int);
        assert(2 * k * rest == 2 * (k * rest)) by (nonlinear_arith);
    }
    let magnitude: u128 = k * q + (2 * (k * rest) + d) / (2 * d);
    proof {
        let num = 2 * (k * rest) + d;
        assert(num / (2 * d as int) <= num) by (nonlinear_arith)
            requires
                0 <= num,
                0 < d,
        ;
        assert(times * m == k * m);
        assert(sum < 0 ==> times * sum == -(k * m)) by (nonlinear_arith)
            requires
                sum < 0 ==> m == -sum,
                times == k,
        ;
        assert(sum >= 0 ==> times * sum == k * m);
        assert(m > 0 ==> k * m > 0) by (nonlinear_arith)
            requires
                k >= 1,
        ;
        assert(k * m >= 0) by (nonlinear_arith);
    }
    if sum >= 0 {
        magnitude as i128
    } else {
        -(magnitude as i128)
    }
}

/// The sum of a list whose amounts all fit is bounded by its length.
proof fn lemma_sum_bounded(events: Seq<SmsEventView>)
    ensures
        events.len() * i64::MIN <= inflow(events) <= events.len() * i64::MAX,
    decreases events.len(),
{
    if events.len() > 0 {
        lemma_sum_bounded(events.drop_last());
    }
}

/// Settled amounts far above the average of matched inflow.
fn amount_outliers(events: &Vec<SmsEventView>) -> (r: Vec<Anomaly>)
    ensures
        anomalies_view(r@) == outliers(events@),
{
    let ghost is_settled = |e: SmsEventView| e.matched == 1;
    let mut count: usize = 0;
    let mut sum: i128 = 0;
    let mut i: usize = 0;
    assert(events@.take(0).filter(is_settled) =~= Seq::<SmsEventView>::empty()) by {
        reveal(Seq::filter);
    }
    while i < events.len()
        invariant
            i <= events.len(),
            is_settled == (|e: SmsEventView| e.matched == 1),
            count == events@.take(i as int).filter(is_settled).len(),
            count <= i,
            sum == inflow(events@.take(i as int).filter(is_settled)),
        decreases events.len() - i,
    {
        let ghost so_far = events@.take(i as int).filter(is_settled);
        proof {
            events@.take(i as int).lemma_filter_push(events@[i as int], is_settled);
            assert(events@.take(i + 1) =~= events@.take(i as int).push(events@[i as int]));
            lemma_sum_bounded(so_far);
            lemma_sum_bounded(so_far.push(events@[i as int]));
            assert(so_far.push(events@[i as int]).drop_last() =~= so_far);
        }
        if events[i].matched == 1 {
            count = count + 1;
            sum = sum + events[i].amount_minor as i128;
        }
        i = i + 1;
    }
    let ghost all = settled(events@);
    proof {
        assert(events@.take(events@.len() as int) =~= events@);
        assert(events@.filter(is_settled) == all);
        lemma_sum_bounded(all);
    }
    let mut r: Vec<Anomaly> = Vec::new();
    assert(anomalies_view(r@) =~= Seq::empty());
    if count < MIN_SAMPLE_FOR_AMOUNT {
        return r;
    }
    let exact = rounded_multiple(sum, count as u64, AMOUNT_ANOMALY_MULTIPLE);
    let limit: i64 = if exact > i64::MAX as i128 {
        i64::MAX
    } else if exact < i64::MIN as i128 {
        i64::MIN
    } else {
        exact as i64
    };
    let mean = rounded_multiple(sum, count as u64, 1);
    proof {
        assert(1 * inflow(all) == inflow(all));
        lemma_average_fits(inflow(all), all.len());
    }
    let average: i64 = mean as i64;
    i = 0;
    assert(events@.take(0).filter(is_settled) =~= Seq::<SmsEventView>::empty()) by {
        reveal(Seq::filter);
    }
    while i < events.len()
        invariant
            i <= events.len(),
            is_settled == (|e: SmsEventView| e.matched == 1),
            anomalies_view(r@) == above(
                events@.take(i as int).filter(is_settled),
                limit as int,
                average as int,
            ),
        decreases events.len() - i,
    {
        let ghost so_far = events@.take(i as int).filter(is_settled);
        proof {
            events@.take(i as int).lemma_filter_push(events@[i as int], is_settled);
            assert(events@.take(i + 1) =~= events@.take(i as int).push(events@[i as int]));
            assert(so_far.push(events@[i as int]).drop_last() =~= so_far);
        }
        let e = &events[i];
        if e.matched == 1 && e.amount_minor > limit {
            let mut detail = "amount ".to_owned();
            detail.append(signed_text(e.amount_minor).as_str());
            detail.append(" minor is >10× the average of ");
            detail.append(signed_text(average).as_str());
            let ghost before = anomalies_view(r@);
            let found = Anomaly {
                kind: "amount_anomaly",
                severity: "medium",
                detail,
                txn_id: Some(e.txn_id.clone()),
                charge_id: None,
            };
            let ghost f = outlier_anomaly(e.txn_id@, e.amount_minor as int, average as int);
            assert(found@ =~= f);
            r.push(found);
            assert(anomalies_view(r@) =~= before.push(f));
        }
        i = i + 1;
    }
    assert(events@.take(events@.len() as int) =~= events@);
    r
}

/// The rounded average of amounts is one.
proof fn lemma_average_fits(sum: int, n: nat)
    requires
        0 < n,
        n * i64::MIN <= sum <= n * i64::MAX,
    ensures
        i64::MIN <= rounded(sum, n) <= i64::MAX,
{
    let (a, b) = if sum >= 0 {
        (sum, i64::MAX as int)
    } else {
        (-sum, -(i64::MIN as int))
    };
    let d = 2 * n;
    let q = (2 * a + n) / (d as int);
    vstd::arithmetic::div_mod::lemma_fundamental_div_mod(2 * a + n, d as int);
    let r = (2 * a + n) % (d as int);
    assert(0 <= q <= b) by (nonlinear_arith)
        requires
            2 * a + n == d * q + r,
            0 <= r < d,
            d == 2 * n,
            0 < n,
            0 <= a <= n * b,
    ;
}

// ---- all together ----

/// All that the rules find.
pub open spec fn findings(events: Seq<SmsEventView>, charges: Seq<ChargeClaim>) -> Seq<AnomalyView> {
    duplicates(events) + mismatches(events, charges) + outliers(events)
}

/// Hold the recorded events and the charges against the rules.
pub fn scan(events: &Vec<SmsEventView>, charges: &Vec<ChargeClaim>) -> (r: FraudReport)
    ensures
        anomalies_view(r.anomalies@) == findings(events@, charges@),
        r.anomaly_count == findings(events@, charges@).len(),
{
    let mut anomalies = duplicate_txids(events);
    let mut senders = sender_mismatches(events, charges);
    let mut amounts = amount_outliers(events);
    let ghost a = anomalies@;
    let ghost b = senders@;
    let ghost c = amounts@;
    anomalies.append(&mut senders);
    anomalies.append(&mut amounts);
    assert(anomalies@ =~= a + b + c);
    assert(anomalies_view(anomalies@) =~= anomalies_view(a) + anomalies_view(b) + anomalies_view(c));
    assert(anomalies_view(anomalies@).len() == anomalies@.len());
    FraudReport { anomaly_count: anomalies.len(), anomalies }
}

// ---- laws ----

/// `distinct` keeps every text, and each once.
proof fn lemma_distinct(s: Seq<Seq<char>>)
    ensures
        forall|x: Seq<char>| #[trigger] distinct(s).contains(x) <==> s.contains(x),
        distinct(s).no_duplicates(),
    decreases s.len(),
{
    if s.len() > 0 {
        let t = s.drop_last();
        let x = s.last();
        lemma_distinct(t);
        assert forall|y: Seq<char>| #[trigger] distinct(s).contains(y) <==> s.contains(y) by {
            if s.contains(y) {
                let i = choose|i: int| 0 <= i < s.len() && s[i] == y;
                if i < t.len() {
                    assert(t[i] == y);
                    assert(t.contains(y));
                    assert(distinct(t).contains(y));
                }
                if !distinct(t).contains(x) {
                    let d = distinct(t).push(x);
                    if y == x {
                        assert(d[d.len() - 1] == y);
                    } else {
                        let j = choose|j: int| 0 <= j < distinct(t).len() && distinct(t)[j] == y;
                        assert(d[j] == y);
                    }
                }
            }
            if distinct(s).contains(y) {
                let j = choose|j: int| 0 <= j < distinct(s).len() && distinct(s)[j] == y;
                if j < distinct(t).len() {
                    assert(distinct(t)[j] == y);
                    assert(distinct(t).contains(y));
                    assert(t.contains(y));
                    let i = choose|i: int| 0 <= i < t.len() && t[i] == y;
                    assert(s[i] == y);
                } else {
                    assert(s[s.len() - 1] == y);
                }
            }
        }
        if !distinct(t).contains(x) {
            assert forall|i: int, j: int|
                0 <= i < distinct(s).len() && 0 <= j < distinct(s).len() && i != j implies distinct(
                s,
            )[i] != distinct(s)[j] by {
                if i < distinct(t).len() && j < distinct(t).len() {
                    assert(distinct(t)[i] != distinct(t)[j]);
                }
            }
        }
    }
}

/// Which gateways a transaction id was seen on.
proof fn lemma_gateways(events: Seq<SmsEventView>, txn_id: Seq<char>, g: Seq<char>)
    ensures
        gateways_of(events, txn_id).contains(g) <==> exists|i: int|
            0 <= i < events.len() && (#[trigger] events[i]).txn_id@ == txn_id && events[i].gateway@
                == g,
    decreases events.len(),
{
    if events.len() > 0 {
        let t = events.drop_last();
        lemma_gateways(t, txn_id, g);
        let front = gateways_of(t, txn_id);
        let all = gateways_of(events, txn_id);
        if all.contains(g) {
            let k = choose|k: int| 0 <= k < all.len() && all[k] == g;
            if k < front.len() {
                assert(front[k] == g);
                assert(front.contains(g));
                let i = choose|i: int|
                    0 <= i < t.len() && (#[trigger] t[i]).txn_id@ == txn_id && t[i].gateway@ == g;
                assert(events[i] == t[i]);
            } else {
                let last = events[events.len() - 1];
                assert(last.txn_id@ == txn_id && last.gateway@ == g);
            }
        }
        if exists|i: int|
            0 <= i < events.len() && (#[trigger] events[i]).txn_id@ == txn_id && events[i].gateway@
                == g {
            let i = choose|i: int|
                0 <= i < events.len() && (#[trigger] events[i]).txn_id@ == txn_id
                    && events[i].gateway@ == g;
            if i < t.len() {
                assert(t[i] == events[i]);
                assert(front.contains(g));
                let k = choose|k: int| 0 <= k < front.len() && front[k] == g;
                assert(all[k] == g);
            } else {
                assert(all[all.len() - 1] == g);
            }
        }
    }
}

/// Whether a transaction id was recorded under two different gateways.
pub open spec fn on_two_gateways(events: Seq<SmsEventView>, txn_id: Seq<char>) -> bool {
    exists|i: int, j: int|
        0 <= i < events.len() && 0 <= j < events.len() && (#[trigger] events[i]).txn_id@ == txn_id
            && (#[trigger] events[j]).txn_id@ == txn_id && events[i].gateway@ != events[j].gateway@
}

/// More than one gateway is counted exactly if two events of the id differ in theirs.
proof fn lemma_counted(events: Seq<SmsEventView>, txn_id: Seq<char>)
    ensures
        gateway_count(events, txn_id) > 1 <==> on_two_gateways(events, txn_id),
{
    let all = gateways_of(events, txn_id);
    let d = distinct(all);
    lemma_distinct(all);
    if d.len() > 1 {
        assert(d[0] != d[1]);
        assert(d.contains(d[0]) && d.contains(d[1]));
        lemma_gateways(events, txn_id, d[0]);
        lemma_gateways(events, txn_id, d[1]);
        let i = choose|i: int|
            0 <= i < events.len() && (#[trigger] events[i]).txn_id@ == txn_id && events[i].gateway@
                == d[0];
        let j = choose|j: int|
            0 <= j < events.len() && (#[trigger] events[j]).txn_id@ == txn_id && events[j].gateway@
                == d[1];
        assert(events[i].gateway@ != events[j].gateway@);
    }
    if on_two_gateways(events, txn_id) {
        let (i, j) = choose|i: int, j: int|
            0 <= i < events.len() && 0 <= j < events.len() && (#[trigger] events[i]).txn_id@
                == txn_id && (#[trigger] events[j]).txn_id@ == txn_id && events[i].gateway@
                != events[j].gateway@;
        lemma_gateways(events, txn_id, events[i].gateway@);
        lemma_gateways(events, txn_id, events[j].gateway@);
        assert(d.contains(events[i].gateway@));
        assert(d.contains(events[j].gateway@));
    }
}

/// What is found among given ids.
proof fn lemma_among(events: Seq<SmsEventView>, ids: Seq<Seq<char>>, a: AnomalyView)
    ensures
        duplicates_among(events, ids).contains(a) <==> exists|k: int|
            0 <= k < ids.len() && gateway_count(events, #[trigger] ids[k]) > 1
                && a == duplicate_anomaly(ids[k], gateway_count(events, ids[k])),
    decreases ids.len(),
{
    if ids.len() > 0 {
        let t = ids.drop_last();
        lemma_among(events, t, a);
        let front = duplicates_among(events, t);
        let all = duplicates_among(events, ids);
        if all.contains(a) {
            let p = choose|p: int| 0 <= p < all.len() && all[p] == a;
            if p < front.len() {
                assert(front[p] == a);
                assert(front.contains(a));
                let k = choose|k: int|
                    0 <= k < t.len() && gateway_count(events, #[trigger] t[k]) > 1 && a
                        == duplicate_anomaly(t[k], gateway_count(events, t[k]));
                assert(ids[k] == t[k]);
            } else {
                assert(ids[ids.len() - 1] == ids.last());
            }
        }
        if exists|k: int|
            0 <= k < ids.len() && gateway_count(events, #[trigger] ids[k]) > 1 && a
                == duplicate_anomaly(ids[k], gateway_count(events, ids[k])) {
            let k = choose|k: int|
                0 <= k < ids.len() && gateway_count(events, #[trigger] ids[k]) > 1 && a
                    == duplicate_anomaly(ids[k], gateway_count(events, ids[k]));
            if k < t.len() {
                assert(t[k] == ids[k]);
                let p = choose|p: int| 0 <= p < front.len() && front[p] == a;
                assert(all[p] == a);
            } else {
                assert(all[all.len() - 1] == a);
            }
        }
    }
}

/// A transaction id is reported exactly if it was recorded under two different gateways.
pub proof fn law_duplicates_are_reported(events: Seq<SmsEventView>, txn_id: Seq<char>)
    ensures
        duplicates(events).contains(
            duplicate_anomaly(txn_id, gateway_count(events, txn_id)),
        ) <==> on_two_gateways(events, txn_id),
{
    let ids = distinct(txn_ids(events));
    let a = duplicate_anomaly(txn_id, gateway_count(events, txn_id));
    lemma_among(events, ids, a);
    lemma_counted(events, txn_id);
    lemma_distinct(txn_ids(events));
    if on_two_gateways(events, txn_id) {
        let (i, j) = choose|i: int, j: int|
            0 <= i < events.len() && 0 <= j < events.len() && (#[trigger] events[i]).txn_id@
                == txn_id && (#[trigger] events[j]).txn_id@ == txn_id && events[i].gateway@
                != events[j].gateway@;
        assert(txn_ids(events)[i] == txn_id);
        assert(txn_ids(events).contains(txn_id));
        assert(ids.contains(txn_id));
        let k = choose|k: int| 0 <= k < ids.len() && ids[k] == txn_id;
        assert(gateway_count(events, ids[k]) > 1);
    }
    if duplicates(events).contains(a) {
        let k = choose|k: int|
            0 <= k < ids.len() && gateway_count(events, #[trigger] ids[k]) > 1 && a
                == duplicate_anomaly(ids[k], gateway_count(events, ids[k]));
        assert(a.txn_id == Some(ids[k]));
        assert(ids[k] == txn_id);
    }
}

/// An amount that is flagged is more than ten times the average.
pub proof fn law_outlier_exceeds_ten_times_the_average(settled: Seq<SmsEventView>, e: SmsEventView)
    requires
        settled.len() > 0,
        e.amount_minor > threshold(settled),
    ensures
        e.amount_minor * settled.len() > AMOUNT_ANOMALY_MULTIPLE * inflow(settled),
{
    let n = settled.len() as int;
    let a = AMOUNT_ANOMALY_MULTIPLE * inflow(settled);
    let x = e.amount_minor as int;
    let m = if a >= 0 {
        a
    } else {
        -a
    };
    let d = 2 * n;
    let q = (2 * m + n) / d;
    vstd::arithmetic::div_mod::lemma_fundamental_div_mod(2 * m + n, d);
    let r = (2 * m + n) % d;
    assert(x > rounded(a, settled.len()));
    if a >= 0 {
        assert(x * n > a) by (nonlinear_arith)
            requires
                2 * a + n == d * q + r,
                0 <= r < d,
                d == 2 * n,
                0 < n,
                x >= q + 1,
        ;
    } else {
        assert(x * n > a) by (nonlinear_arith)
            requires
                2 * -a + n == d * q + r,
                0 <= r < d,
                d == 2 * n,
                0 < n,
                x >= -q + 1,
        ;
    }
}

/// An event that pays from the expected number is no mismatch, whatever else it says.
proof fn lemma_no_mismatch(e: SmsEventView, charges: Seq<ChargeClaim>)
    requires
        forall|j: int| 0 <= j < charges.len() ==> !is_mismatch(e, #[trigger] charges[j]),
    ensures
        mismatches_of(e, charges) =~= Seq::<AnomalyView>::empty(),
    decreases charges.len(),
{
    if charges.len() > 0 {
        lemma_no_mismatch(e, charges.drop_last());
        assert(!is_mismatch(e, charges[charges.len() - 1]));
    }
}

/// No events mismatch.
proof fn lemma_no_mismatches(events: Seq<SmsEventView>, charges: Seq<ChargeClaim>)
    requires
        forall|i: int, j: int|
            0 <= i < events.len() && 0 <= j < charges.len() ==> !is_mismatch(
                #[trigger] events[i],
                #[trigger] charges[j],
            ),
    ensures
        mismatches(events, charges) =~= Seq::<AnomalyView>::empty(),
    decreases events.len(),
{
    if events.len() > 0 {
        let last = events[events.len() - 1];
        lemma_no_mismatches(events.drop_last(), charges);
        lemma_no_mismatch(last, charges);
    }
}

/// Clean traffic is not flagged: where no transaction id occurs on two gateways, every known
/// sender is the expected one, and there is too little history to have a norm, nothing is
/// found.
pub proof fn law_clean_traffic_is_not_flagged(
    events: Seq<SmsEventView>,
    charges: Seq<ChargeClaim>,
)
    requires
        forall|txn_id: Seq<char>| !#[trigger] on_two_gateways(events, txn_id),
        forall|i: int, j: int|
            0 <= i < events.len() && 0 <= j < charges.len() ==> !is_mismatch(
                #[trigger] events[i],
                #[trigger] charges[j],
            ),
        settled(events).len() < MIN_SAMPLE_FOR_AMOUNT,
    ensures
        findings(events, charges).len() == 0,
{
    let ids = distinct(txn_ids(events));
    let found = duplicates(events);
    if found.len() > 0 {
        assert(found.contains(found[0]));
        lemma_among(events, ids, found[0]);
        let k = choose|k: int|
            0 <= k < ids.len() && gateway_count(events, #[trigger] ids[k]) > 1 && found[0]
                == duplicate_anomaly(ids[k], gateway_count(events, ids[k]));
        lemma_counted(events, ids[k]);
        assert(on_two_gateways(events, ids[k]));
    }
    lemma_no_mismatches(events, charges);
}

/// A sender other than the expected one is reported.
pub proof fn law_mismatch_is_reported(
    events: Seq<SmsEventView>,
    charges: Seq<ChargeClaim>,
    i: int,
    j: int,
)
    requires
        0 <= i < events.len(),
        0 <= j < charges.len(),
        is_mismatch(events[i], charges[j]),
    ensures
        mismatches(events, charges).contains(
            mismatch_anomaly(
                charges[j].id@,
                events[i].sender_msisdn.unwrap()@,
                charges[j].customer_msisdn.unwrap()@,
            ),
        ),
    decreases events.len(),
{
    let a = mismatch_anomaly(
        charges[j].id@,
        events[i].sender_msisdn.unwrap()@,
        charges[j].customer_msisdn.unwrap()@,
    );
    let front = mismatches(events.drop_last(), charges);
    let last = mismatches_of(events.last(), charges);
    let all = mismatches(events, charges);
    if i < events.len() - 1 {
        law_mismatch_is_reported(events.drop_last(), charges, i, j);
        let p = choose|p: int| 0 <= p < front.len() && front[p] == a;
        assert(all[p] == a);
    } else {
        lemma_mismatch_of_event(events[i], charges, j);
        let p = choose|p: int| 0 <= p < last.len() && last[p] == a;
        assert(all[front.len() + p] == a);
    }
}

/// A mismatch of an event is among its mismatches.
proof fn lemma_mismatch_of_event(e: SmsEventView, charges: Seq<ChargeClaim>, j: int)
    requires
        0 <= j < charges.len(),
        is_mismatch(e, charges[j]),
    ensures
        mismatches_of(e, charges).contains(
            mismatch_anomaly(
                charges[j].id@,
                e.sender_msisdn.unwrap()@,
                charges[j].customer_msisdn.unwrap()@,
            ),
        ),
    decreases charges.len(),
{
    let a = mismatch_anomaly(
        charges[j].id@,
        e.sender_msisdn.unwrap()@,
        charges[j].customer_msisdn.unwrap()@,
    );
    let front = mismatches_of(e, charges.drop_last());
    let all = mismatches_of(e, charges);
    if j < charges.len() - 1 {
        lemma_mismatch_of_event(e, charges.drop_last(), j);
        let p = choose|p: int| 0 <= p < front.len() && front[p] == a;
        assert(all[p] == a);
    } else {
        assert(all[all.len() - 1] == a);
    }
}

/// The gateways of a transaction id are counted once each, and all of them are.
pub proof fn law_gateways_are_counted_once(events: Seq<SmsEventView>, txn_id: Seq<char>) -> (
    list: Seq<Seq<char>>)
    ensures
        gateway_count(events, txn_id) == list.len(),
        list.no_duplicates(),
        forall|g: Seq<char>| #[trigger]
            list.contains(g) <==> exists|i: int|
                0 <= i < events.len() && (#[trigger] events[i]).txn_id@ == txn_id
                    && events[i].gateway@ == g,
{
    let list = distinct(gateways_of(events, txn_id));
    lemma_distinct(gateways_of(events, txn_id));
    assert forall|g: Seq<char>| #[trigger] list.contains(g) <==> exists|i: int|
        0 <= i < events.len() && (#[trigger] events[i]).txn_id@ == txn_id && events[i].gateway@
            == g by {
        lemma_gateways(events, txn_id, g);
    }
    list
}

/// Whatever is reported as a duplicate is one: an id that was recorded under two different
/// gateways, with the number of its gateways.
pub proof fn law_only_duplicates_are_reported(events: Seq<SmsEventView>, a: AnomalyView)
    requires
        duplicates(events).contains(a),
    ensures
        a.txn_id is Some,
        on_two_gateways(events, a.txn_id.unwrap()),
        a.kind == "duplicate_txid"@,
        a.severity == "high"@,
        a.charge_id is None,
        a.detail == "txn_id seen on "@ + decimal(gateway_count(events, a.txn_id.unwrap()))
            + " different gateways"@,
{
    let ids = distinct(txn_ids(events));
    lemma_among(events, ids, a);
    let k = choose|k: int|
        0 <= k < ids.len() && gateway_count(events, #[trigger] ids[k]) > 1 && a
            == duplicate_anomaly(ids[k], gateway_count(events, ids[k]));
    lemma_counted(events, ids[k]);
}

/// A matched event whose sender is known, and is not the number that its charge expects, is
/// reported.
pub proof fn law_wrong_sender_is_reported(
    events: Seq<SmsEventView>,
    charges: Seq<ChargeClaim>,
    i: int,
    j: int,
)
    requires
        0 <= i < events.len(),
        0 <= j < charges.len(),
        opt_view(events[i].charge_id) == Some(charges[j].id@),
        events[i].sender_msisdn is Some,
        charges[j].customer_msisdn is Some,
        events[i].sender_msisdn.unwrap()@ != charges[j].customer_msisdn.unwrap()@,
    ensures
        mismatches(events, charges).contains(
            AnomalyView {
                kind: "sender_mismatch"@,
                severity: "medium"@,
                detail: "paid by "@ + events[i].sender_msisdn.unwrap()@ + ", charge expected "@
                    + charges[j].customer_msisdn.unwrap()@,
                txn_id: None,
                charge_id: Some(charges[j].id@),
            },
        ),
{
    law_mismatch_is_reported(events, charges, i, j);
}

/// Whatever is reported as a wrong sender is one: some event paid the charge from a number
/// other than the one that it expects.
pub proof fn law_only_wrong_senders_are_reported(
    events: Seq<SmsEventView>,
    charges: Seq<ChargeClaim>,
    a: AnomalyView,
)
    requires
        mismatches(events, charges).contains(a),
    ensures
        exists|i: int, j: int|
            {
                &&& 0 <= i < events.len()
                &&& 0 <= j < charges.len()
                &&& opt_view((#[trigger] events[i]).charge_id) == Some((#[trigger] charges[j]).id@)
                &&& events[i].sender_msisdn is Some
                &&& charges[j].customer_msisdn is Some
                &&& events[i].sender_msisdn.unwrap()@ != charges[j].customer_msisdn.unwrap()@
                &&& a.charge_id == Some(charges[j].id@)
            },
    decreases events.len(),
{
    let front = mismatches(events.drop_last(), charges);
    let last = mismatches_of(events.last(), charges);
    let all = mismatches(events, charges);
    let p = choose|p: int| 0 <= p < all.len() && all[p] == a;
    if p < front.len() {
        assert(front[p] == a);
        assert(front.contains(a));
        let t = events.drop_last();
        law_only_wrong_senders_are_reported(t, charges, a);
        let (i, j) = choose|i: int, j: int|
            {
                &&& 0 <= i < t.len()
                &&& 0 <= j < charges.len()
                &&& opt_view((#[trigger] t[i]).charge_id) == Some((#[trigger] charges[j]).id@)
                &&& t[i].sender_msisdn is Some
                &&& charges[j].customer_msisdn is Some
                &&& t[i].sender_msisdn.unwrap()@ != charges[j].customer_msisdn.unwrap()@
                &&& a.charge_id == Some(charges[j].id@)
            };
        assert(events[i] == t[i]);
        assert(opt_view(events[i].charge_id) == Some(charges[j].id@));
    } else {
        assert(last[p - front.len()] == a);
        let j = lemma_mismatch_has_its_charge(events.last(), charges, a);
        let i = events.len() - 1;
        assert(opt_view(events[i].charge_id) == Some(charges[j].id@));
    }
}

/// A mismatch of an event has its charge.
proof fn lemma_mismatch_has_its_charge(
    e: SmsEventView,
    charges: Seq<ChargeClaim>,
    a: AnomalyView,
) -> (j: int)
    requires
        mismatches_of(e, charges).contains(a),
    ensures
        0 <= j < charges.len(),
        is_mismatch(e, charges[j]),
        a.charge_id == Some(charges[j].id@),
    decreases charges.len(),
{
    let front = mismatches_of(e, charges.drop_last());
    let all = mismatches_of(e, charges);
    let p = choose|p: int| 0 <= p < all.len() && all[p] == a;
    if p < front.len() {
        assert(front[p] == a);
        assert(front.contains(a));
        lemma_mismatch_has_its_charge(e, charges.drop_last(), a)
    } else {
        charges.len() - 1
    }
}

/// An event is settled exactly if it matched a charge.
pub proof fn law_matched_events_are_settled(events: Seq<SmsEventView>, e: SmsEventView)
    ensures
        e.matched == 1 ==> settled(events.push(e)) == settled(events).push(e),
        e.matched != 1 ==> settled(events.push(e)) == settled(events),
        settled(Seq::empty()).len() == 0,
{
    events.lemma_filter_push(e, |e: SmsEventView| e.matched == 1);
    reveal(Seq::filter);
}

/// What is above a limit.
proof fn lemma_above(s: Seq<SmsEventView>, limit: int, average: int, a: AnomalyView)
    ensures
        above(s, limit, average).contains(a) <==> exists|i: int|
            0 <= i < s.len() && (#[trigger] s[i]).amount_minor > limit && a == outlier_anomaly(
                s[i].txn_id@,
                s[i].amount_minor as int,
                average,
            ),
    decreases s.len(),
{
    if s.len() > 0 {
        let t = s.drop_last();
        lemma_above(t, limit, average, a);
        let front = above(t, limit, average);
        let all = above(s, limit, average);
        if all.contains(a) {
            let p = choose|p: int| 0 <= p < all.len() && all[p] == a;
            if p < front.len() {
                assert(front[p] == a);
                assert(front.contains(a));
                let i = choose|i: int|
                    0 <= i < t.len() && (#[trigger] t[i]).amount_minor > limit && a
                        == outlier_anomaly(t[i].txn_id@, t[i].amount_minor as int, average);
                assert(s[i] == t[i]);
            } else {
                assert(s[s.len() - 1].amount_minor > limit);
            }
        }
        if exists|i: int|
            0 <= i < s.len() && (#[trigger] s[i]).amount_minor > limit && a == outlier_anomaly(
                s[i].txn_id@,
                s[i].amount_minor as int,
                average,
            ) {
            let i = choose|i: int|
                0 <= i < s.len() && (#[trigger] s[i]).amount_minor > limit && a == outlier_anomaly(
                    s[i].txn_id@,
                    s[i].amount_minor as int,
                    average,
                );
            if i < t.len() {
                assert(t[i] == s[i]);
                let p = choose|p: int| 0 <= p < front.len() && front[p] == a;
                assert(all[p] == a);
            } else {
                assert(all[all.len() - 1] == a);
            }
        }
    }
}

/// Among five settled events or more, one whose amount exceeds ten times the average by one
/// or more is reported, with its amount and the average.
pub proof fn law_large_amount_is_reported(events: Seq<SmsEventView>, i: int)
    requires
        settled(events).len() >= 5,
        0 <= i < settled(events).len(),
        settled(events)[i].amount_minor > i64::MIN,
        settled(events)[i].amount_minor * settled(events).len() >= 10 * inflow(settled(events))
            + settled(events).len(),
    ensures
        outliers(events).contains(
            AnomalyView {
                kind: "amount_anomaly"@,
                severity: "medium"@,
                detail: "amount "@ + signed_decimal(settled(events)[i].amount_minor as int)
                    + " minor is >10× the average of "@ + signed_decimal(average(settled(events))),
                txn_id: Some(settled(events)[i].txn_id@),
                charge_id: None,
            },
        ),
{
    let s = settled(events);
    let n = s.len() as int;
    let a = AMOUNT_ANOMALY_MULTIPLE * inflow(s);
    let x = s[i].amount_minor as int;
    let q = rounded(a, s.len());
    lemma_rounding(a, s.len());
    assert(x > q) by (nonlinear_arith)
        requires
            x * n >= a + n,
            2 * n * q <= 2 * a + n,
            n > 0,
    ;
    lemma_above(
        s,
        threshold(s),
        average(s),
        outlier_anomaly(s[i].txn_id@, s[i].amount_minor as int, average(s)),
    );
}

/// A rounded quotient is within a half of the quotient.
proof fn lemma_rounding(a: int, n: nat)
    requires
        n > 0,
    ensures
        2 * n * rounded(a, n) <= 2 * a + n,
        2 * a - n <= 2 * n * rounded(a, n),
{
    let m = if a >= 0 {
        a
    } else {
        -a
    };
    let d = 2 * n;
    let q = (2 * m + n) / (d as int);
    vstd::arithmetic::div_mod::lemma_fundamental_div_mod(2 * m + n, d as int);
    let r = (2 * m + n) % (d as int);
    assert(d * q <= 2 * m + n && 2 * m - n <= d * q);
    assert(2 * n * (-q) == -(d * q)) by (nonlinear_arith)
        requires
            d == 2 * n,
    ;
    assert(2 * n * q == d * q) by (nonlinear_arith)
        requires
            d == 2 * n,
    ;
}

/// Whatever is reported as a large amount is one: the amount of a settled event, among five or
/// more, that is more than ten times the average.
pub proof fn law_only_large_amounts_are_reported(events: Seq<SmsEventView>, a: AnomalyView)
    requires
        outliers(events).contains(a),
    ensures
        settled(events).len() >= 5,
        exists|i: int|
            {
                &&& 0 <= i < settled(events).len()
                &&& (#[trigger] settled(events)[i]).amount_minor * settled(events).len() > 10
                    * inflow(settled(events))
                &&& a.txn_id == Some(settled(events)[i].txn_id@)
            },
{
    let s = settled(events);
    assert(s.len() >= 5) by {
        assert(!Seq::<AnomalyView>::empty().contains(a));
    }
    lemma_above(s, threshold(s), average(s), a);
    let i = choose|i: int|
        0 <= i < s.len() && (#[trigger] s[i]).amount_minor > threshold(s) && a == outlier_anomaly(
            s[i].txn_id@,
            s[i].amount_minor as int,
            average(s),
        );
    law_outlier_exceeds_ten_times_the_average(s, s[i]);
}

/// The average that is told is the nearest whole number: it is within a half of the sum of the
/// amounts, divided by their count.
pub proof fn law_average_is_the_nearest(settled: Seq<SmsEventView>)
    requires
        settled.len() > 0,
    ensures
        2 * inflow(settled) - settled.len() <= 2 * settled.len() * average(settled) <= 2 * inflow(
            settled,
        ) + settled.len(),
{
    lemma_rounding(inflow(settled), settled.len());
}

/// Something is found exactly if one of the three rules finds it, and each finding counts.
pub proof fn law_all_rules_are_held(
    events: Seq<SmsEventView>,
    charges: Seq<ChargeClaim>,
    a: AnomalyView,
)
    ensures
        findings(events, charges).contains(a) <==> duplicates(events).contains(a) || mismatches(
            events,
            charges,
        ).contains(a) || outliers(events).contains(a),
        findings(events, charges).len() == duplicates(events).len() + mismatches(
            events,
            charges,
        ).len() + outliers(events).len(),
{
    let x = duplicates(events);
    let y = mismatches(events, charges);
    let z = outliers(events);
    let all = findings(events, charges);
    if all.contains(a) {
        let p = choose|p: int| 0 <= p < all.len() && all[p] == a;
        if p < x.len() {
            assert(x[p] == a);
        } else if p < x.len() + y.len() {
            assert(y[p - x.len()] == a);
        } else {
            assert(z[p - x.len() - y.len()] == a);
        }
    }
    if x.contains(a) {
        let p = choose|p: int| 0 <= p < x.len() && x[p] == a;
        assert(all[p] == a);
    }
    if y.contains(a) {
        let p = choose|p: int| 0 <= p < y.len() && y[p] == a;
        assert(all[x.len() + p] == a);
    }
    if z.contains(a) {
        let p = choose|p: int| 0 <= p < z.len() && z[p] == a;
        assert(all[x.len() + y.len() + p] == a);
    }
}

} // verus!

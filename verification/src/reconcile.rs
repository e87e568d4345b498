//! Reconciliation over the settled events: a plain structured summary, without a model in
//! between.

use crate::sms::{ChargeClaim, SmsEventView};
use crate::text::{opt_str_view, opt_view, own_opt};
use vstd::prelude::*;

verus! {

/// What came in, and what is still waited for.
#[derive(Debug)]
pub struct Reconciliation {
    pub gateway: Option<String>,
    pub total_settled_minor: i64,
    pub settled_count: i64,
    pub pending_charges: i64,
}

/// Why no summary could be made.
#[derive(Debug)]
pub enum ReconcileError {
    /// The sum leaves the range of amounts.
    Overflow,
}

impl ReconcileError {
    /// The message of this error.
    pub open spec fn message_text(self) -> Seq<char> {
        "integer overflow"@
    }

    /// The message of this error.
    pub fn message(&self) -> (s: String)
        ensures
            s@ == self.message_text(),
    {
        "integer overflow".to_owned()
    }
}

/// Whether an event settled a charge and is on the gateway, if one is named.
pub open spec fn counts_for(gateway: Option<Seq<char>>) -> spec_fn(SmsEventView) -> bool {
    |e: SmsEventView| e.matched == 1 && (gateway matches Some(g) ==> e.gateway@ == g)
}

/// The sum of the events' amounts.
pub open spec fn inflow(events: Seq<SmsEventView>) -> int
    decreases events.len(),
{
    if events.len() == 0 {
        0
    } else {
        inflow(events.drop_last()) + events.last().amount_minor
    }
}

/// The events that settled a charge, on one gateway or on all.
pub open spec fn counted(events: Seq<SmsEventView>, gateway: Option<Seq<char>>) -> Seq<
    SmsEventView,
> {
    events.filter(counts_for(gateway))
}

/// Whether the running sums of the events' amounts are all amounts.
pub open spec fn inflow_fits(events: Seq<SmsEventView>) -> bool {
    forall|k: int|
        0 <= k <= events.len() ==> i64::MIN <= #[trigger] inflow(events.take(k)) <= i64::MAX
}

/// The charges that still wait for their money.
pub open spec fn pending(charges: Seq<ChargeClaim>) -> Seq<ChargeClaim> {
    charges.filter(|c: ChargeClaim| c.status@ == "pending"@)
}

/// How many charges still wait for their money.
fn count_pending(charges: &Vec<ChargeClaim>) -> (n: i64)
    requires
        charges.len() <= i64::MAX,
    ensures
        n == pending(charges@).len(),
{
    let ghost waits = |c: ChargeClaim| c.status@ == "pending"@;
    let mut n: i64 = 0;
    let mut i: usize = 0;
    assert(charges@.take(0).filter(waits) =~= Seq::<ChargeClaim>::empty()) by {
        reveal(Seq::filter);
    }
    while i < charges.len()
        invariant
            i <= charges.len() <= i64::MAX,
            waits == (|c: ChargeClaim| c.status@ == "pending"@),
            n == charges@.take(i as int).filter(waits).len(),
            n <= i,
        decreases charges.len() - i,
    {
        proof {
            charges@.take(i as int).lemma_filter_push(charges@[i as int], waits);
            assert(charges@.take(i + 1) =~= charges@.take(i as int).push(charges@[i as int]));
        }
        if charges[i].status.as_str().eq("pending") {
            n = n + 1;
        }
        i = i + 1;
    }
    assert(charges@.take(charges@.len() as int) =~= charges@);
    n
}

/// Whether an event settled a charge and is on the gateway, if one is named.
fn is_counted(e: &SmsEventView, gateway: Option<&str>) -> (r: bool)
    ensures
        r == counts_for(opt_str_view(gateway))(*e),
{
    e.matched == 1 && match gateway {
        Some(g) => e.gateway.as_str().eq(g),
        None => true,
    }
}

/// Summarize settled inflow, optionally of one gateway. Amounts sum the recorded SMS events
/// that matched a charge, which are the authoritative signal of money in.
pub fn reconcile(
    events: &Vec<SmsEventView>,
    charges: &Vec<ChargeClaim>,
    gateway: Option<&str>,
) -> (r: Result<Reconciliation, ReconcileError>)
    requires
        events.len() <= i64::MAX,
        charges.len() <= i64::MAX,
    ensures
        r is Ok <==> inflow_fits(counted(events@, opt_str_view(gateway))),
        r matches Ok(s) ==> {
            &&& opt_view(s.gateway) == opt_str_view(gateway)
            &&& s.total_settled_minor == inflow(counted(events@, opt_str_view(gateway)))
            &&& s.settled_count == counted(events@, opt_str_view(gateway)).len()
            &&& s.pending_charges == pending(charges@).len()
        },
{
    let ghost keep = counts_for(opt_str_view(gateway));
    let ghost all = counted(events@, opt_str_view(gateway));
    let mut total: i64 = 0;
    let mut count: i64 = 0;
    let mut i: usize = 0;
    proof {
        assert(events@.take(0).filter(keep) =~= Seq::<SmsEventView>::empty()) by {
            reveal(Seq::filter);
        }
        assert(all.take(0) =~= Seq::<SmsEventView>::empty());
        assert(events@.take(events@.len() as int) =~= events@);
    }
    while i < events.len()
        invariant
            i <= events.len() <= i64::MAX,
            keep == counts_for(opt_str_view(gateway)),
            all == events@.filter(keep),
            count == events@.take(i as int).filter(keep).len(),
            count <= i,
            count <= all.len(),
            all.take(count as int) == events@.take(i as int).filter(keep),
            total == inflow(all.take(count as int)),
            forall|k: int|
                0 <= k <= count ==> i64::MIN <= #[trigger] inflow(all.take(k)) <= i64::MAX,
        decreases events.len() - i,
    {
        proof {
            events@.take(i as int).lemma_filter_push(events@[i as int], keep);
            assert(events@.take(i + 1) =~= events@.take(i as int).push(events@[i as int]));
            lemma_filter_take(events@, keep, i + 1);
        }
        if is_counted(&events[i], gateway) {
            assert(all.take(count + 1).drop_last() =~= all.take(count as int));
            match total.checked_add(events[i].amount_minor) {
                Some(t) => {
                    total = t;
                },
                None => {
                    assert(!(i64::MIN <= inflow(all.take(count + 1)) <= i64::MAX));
                    return Err(ReconcileError::Overflow);
                },
            }
            count = count + 1;
        }
        i = i + 1;
    }
    assert(events@.take(i as int) =~= events@);
    assert(all.take(count as int) =~= all);
    Ok(
        Reconciliation {
            gateway: own_opt(gateway),
            total_settled_minor: total,
            settled_count: count,
            pending_charges: count_pending(charges),
        },
    )
}

/// What a filter keeps of the front of a list stands at the front of what it keeps.
proof fn lemma_filter_take(s: Seq<SmsEventView>, p: spec_fn(SmsEventView) -> bool, i: int)
    requires
        0 <= i <= s.len(),
    ensures
        s.take(i).filter(p).len() <= s.filter(p).len(),
        s.filter(p).take(s.take(i).filter(p).len() as int) == s.take(i).filter(p),
{
    assert(s =~= s.take(i) + s.skip(i));
    Seq::filter_distributes_over_add(s.take(i), s.skip(i), p);
    assert(s.filter(p).take(s.take(i).filter(p).len() as int) =~= s.take(i).filter(p));
}

// ---- laws ----

/// The gateways add up: where every settled event is on one of two gateways, the inflow of
/// the two is the whole inflow, and so are their counts.
pub proof fn law_gateways_add_up(events: Seq<SmsEventView>, a: Seq<char>, b: Seq<char>)
    requires
        a != b,
        forall|i: int|
            0 <= i < events.len() && (#[trigger] events[i]).matched == 1 ==> events[i].gateway@ == a
                || events[i].gateway@ == b,
    ensures
        inflow(counted(events, None)) == inflow(counted(events, Some(a))) + inflow(
            counted(events, Some(b)),
        ),
        counted(events, None).len() == counted(events, Some(a)).len() + counted(
            events,
            Some(b),
        ).len(),
    decreases events.len(),
{
    reveal(Seq::filter);
    if events.len() > 0 {
        let t = events.drop_last();
        let e = events[events.len() - 1];
        law_gateways_add_up(t, a, b);
        let (n, x, y) = (counted(t, None), counted(t, Some(a)), counted(t, Some(b)));
        assert(n.push(e).drop_last() =~= n);
        assert(x.push(e).drop_last() =~= x);
        assert(y.push(e).drop_last() =~= y);
    }
}

/// An event that matched no charge changes no summary.
pub proof fn law_unmatched_events_do_not_count(
    events: Seq<SmsEventView>,
    e: SmsEventView,
    gateway: Option<Seq<char>>,
)
    requires
        e.matched != 1,
    ensures
        counted(events.push(e), gateway) == counted(events, gateway),
{
    events.lemma_filter_push(e, counts_for(gateway));
}

/// An event that matched a charge counts, in the summary of all gateways and in that of its
/// own: the inflow grows by its amount, and the count by one. In the summary of another
/// gateway it does not.
pub proof fn law_matched_event_counts(
    events: Seq<SmsEventView>,
    e: SmsEventView,
    gateway: Option<Seq<char>>,
)
    requires
        e.matched == 1,
    ensures
        gateway is None || gateway == Some(e.gateway@) ==> {
            &&& inflow(counted(events.push(e), gateway)) == inflow(counted(events, gateway))
                + e.amount_minor
            &&& counted(events.push(e), gateway).len() == counted(events, gateway).len() + 1
        },
        gateway is Some && gateway != Some(e.gateway@) ==> {
            &&& inflow(counted(events.push(e), gateway)) == inflow(counted(events, gateway))
            &&& counted(events.push(e), gateway).len() == counted(events, gateway).len()
        },
{
    events.lemma_filter_push(e, counts_for(gateway));
    assert(counted(events, gateway).push(e).drop_last() =~= counted(events, gateway));
}

/// Without events there is no inflow.
pub proof fn law_nothing_came_in(gateway: Option<Seq<char>>)
    ensures
        inflow(counted(Seq::empty(), gateway)) == 0,
        counted(Seq::empty(), gateway).len() == 0,
{
    reveal(Seq::filter);
}

/// A charge is waited for exactly as long as it is pending.
pub proof fn law_pending_charge_is_waited_for(charges: Seq<ChargeClaim>, c: ChargeClaim)
    ensures
        pending(charges.push(c)).len() == pending(charges).len() + if c.status@ == "pending"@ {
            1int
        } else {
            0
        },
        pending(Seq::empty()).len() == 0,
{
    charges.lemma_filter_push(c, |c: ChargeClaim| c.status@ == "pending"@);
    reveal(Seq::filter);
}

/// Amounts that are not negative can be summed as long as their sum is an amount.
pub proof fn law_sums_that_fit(events: Seq<SmsEventView>)
    requires
        forall|i: int| 0 <= i < events.len() ==> (#[trigger] events[i]).amount_minor >= 0,
    ensures
        inflow_fits(events) <==> inflow(events) <= i64::MAX,
        0 <= inflow(events),
{
    assert(events.take(events.len() as int) =~= events);
    assert forall|k: int| 0 <= k <= events.len() implies 0 <= #[trigger] inflow(events.take(k))
        <= inflow(events) by {
        lemma_inflow_grows(events, k);
    }
}

/// The inflow of amounts that are not negative grows.
proof fn lemma_inflow_grows(events: Seq<SmsEventView>, k: int)
    requires
        0 <= k <= events.len(),
        forall|i: int| 0 <= i < events.len() ==> (#[trigger] events[i]).amount_minor >= 0,
    ensures
        0 <= inflow(events.take(k)) <= inflow(events),
    decreases events.len(),
{
    if events.len() == 0 {
        assert(events.take(k) =~= events);
    } else {
        let t = events.drop_last();
        assert(events[events.len() - 1].amount_minor >= 0);
        assert forall|i: int| 0 <= i < t.len() implies (#[trigger] t[i]).amount_minor >= 0 by {
            assert(t[i] == events[i]);
        }
        if k == events.len() {
            assert(events.take(k) =~= events);
            lemma_inflow_grows(t, 0);
        } else {
            lemma_inflow_grows(t, k);
            assert(t.take(k) =~= events.take(k));
        }
    }
}

} // verus!

//! The books: what the tables that hold the money come to, and what the engine keeps true
//! of them.
//!
//! [`Books`] is a model of those tables, and [`after`] says what a statement does to it. Over
//! this model the module states the promises that no single function makes: that a replayed
//! SMS credits nothing, that a charge settles once and only on an unambiguous match, that the
//! ledger balances whatever happens, and that a customer cannot settle a charge.

use crate::charge::{
    settlement, settling_posting, ChargeView, NewChargeView, CUSTOMER_CLEARING, MERCHANT_RECEIVABLE,
};
use crate::gateway::TxnView;
use crate::ledger::{
    all_entries, balance, balanced, law_debit_and_credit_balance, law_ledger_nets_to_zero,
    lemma_total_add, total, EntryView, PostingView,
};
use crate::sms::{
    event_of, is_declared_by, is_open_for, matching, normalized, open_claims, resumed, told_of,
    AnswerView, ClaimView, IngestErrorView, IngestedView, IngestionView, Randoms, ReadingView,
    SmsRecord,
};
use crate::store::{ReplyView, StatementView};
use crate::webhook::DeliveryView;
use vstd::prelude::*;

verus! {

/// A charge in the books.
#[verifier::ext_equal]
pub struct ChargeState {
    pub row: NewChargeView,
    pub status: Seq<char>,
    pub gateway: Option<Seq<char>>,
    pub claimed_trx_id: Option<Seq<char>>,
    pub claimed_sender: Option<Seq<char>>,
}

/// An invoice in the books.
#[verifier::ext_equal]
pub struct InvoiceState {
    pub amount_minor: int,
    pub status: Seq<char>,
    pub charge_id: Option<Seq<char>>,
    pub pay_ref: Option<Seq<char>>,
}

/// The tables that hold the money.
#[verifier::ext_equal]
pub struct Books {
    /// The charges by their identifiers.
    pub charges: Map<Seq<char>, ChargeState>,
    /// The SMS events by gateway and transaction id.
    pub events: Map<(Seq<char>, Seq<char>), SmsRecord>,
    /// The ledger transactions in the order in which they were written.
    pub ledger: Seq<PostingView>,
    /// The queued webhooks in the order in which they were queued.
    pub deliveries: Seq<DeliveryView>,
    /// The invoices by their identifiers.
    pub invoices: Map<Seq<char>, InvoiceState>,
    /// The uses that are left of each payment link, where they are limited.
    pub links: Map<Seq<char>, Option<int>>,
}

/// Whether a statement is refused because the row it would insert is there already.
pub open spec fn refuses(b: Books, s: StatementView) -> bool {
    match s {
        StatementView::InsertCharge(c) => b.charges.contains_key(c.id) || exists|id: Seq<char>|
            b.charges.contains_key(id) && #[trigger] b.charges[id].row.order_id == c.order_id,
        StatementView::InsertSmsEvent(e) => b.events.contains_key((e.gateway, e.txn_id)),
        StatementView::InsertInvoice(i) => b.invoices.contains_key(i.id),
        _ => false,
    }
}

/// A pending charge with a public reference.
pub open spec fn is_pending_with(c: ChargeState, pay_ref: Seq<char>) -> bool {
    c.row.pay_ref == Some(pay_ref) && c.status == "pending"@
}

/// Whether a payment link with limited uses has one left.
pub open spec fn has_use_left(b: Books, reference: Seq<char>) -> bool {
    &&& b.links.contains_key(reference)
    &&& b.links[reference] matches Some(q) && q > 0
}

/// What a statement leaves the books at. One that is refused leaves them as they were.
pub open spec fn after(b: Books, s: StatementView) -> Books {
    if refuses(b, s) {
        b
    } else {
        match s {
            StatementView::InsertCharge(c) => Books {
                charges: b.charges.insert(
                    c.id,
                    ChargeState {
                        row: c,
                        status: "pending"@,
                        gateway: None,
                        claimed_trx_id: None,
                        claimed_sender: None,
                    },
                ),
                ..b
            },
            StatementView::InsertSmsEvent(e) => Books {
                events: b.events.insert((e.gateway, e.txn_id), e),
                ..b
            },
            StatementView::PostLedger(p) => Books { ledger: b.ledger.push(p), ..b },
            StatementView::MarkChargePaid { id } => if b.charges.contains_key(id) {
                Books {
                    charges: b.charges.insert(
                        id,
                        ChargeState { status: "paid"@, ..b.charges[id] },
                    ),
                    ..b
                }
            } else {
                b
            },
            StatementView::SettleInvoices { charge_id } => Books {
                invoices: b.invoices.map_values(
                    |i: InvoiceState|
                        if i.charge_id == Some(charge_id) && i.status == "unpaid"@ {
                            InvoiceState { status: "paid"@, ..i }
                        } else {
                            i
                        },
                ),
                ..b
            },
            StatementView::EnqueueWebhook(d) => Books { deliveries: b.deliveries.push(d), ..b },
            StatementView::SelectGateway { pay_ref, gateway } => Books {
                charges: b.charges.map_values(
                    |c: ChargeState|
                        if is_pending_with(c, pay_ref) {
                            ChargeState { gateway: Some(gateway), ..c }
                        } else {
                            c
                        },
                ),
                ..b
            },
            StatementView::ClaimTransaction { pay_ref, trx_id, sender } => Books {
                charges: b.charges.map_values(
                    |c: ChargeState|
                        if is_pending_with(c, pay_ref) {
                            ChargeState {
                                claimed_trx_id: Some(trx_id),
                                claimed_sender: sender,
                                ..c
                            }
                        } else {
                            c
                        },
                ),
                ..b
            },
            StatementView::InsertInvoice(i) => Books {
                invoices: b.invoices.insert(
                    i.id,
                    InvoiceState {
                        amount_minor: i.amount_minor,
                        status: "unpaid"@,
                        charge_id: None,
                        pay_ref: None,
                    },
                ),
                ..b
            },
            StatementView::BindInvoice { id, pay_ref, charge_id } => if b.invoices.contains_key(id) {
                Books {
                    invoices: b.invoices.insert(
                        id,
                        InvoiceState {
                            charge_id: Some(charge_id),
                            pay_ref: Some(pay_ref),
                            ..b.invoices[id]
                        },
                    ),
                    ..b
                }
            } else {
                b
            },
            StatementView::ConsumeLink { reference } => if has_use_left(b, reference) {
                Books {
                    links: b.links.insert(reference, Some(b.links[reference].unwrap() - 1)),
                    ..b
                }
            } else {
                b
            },
        }
    }
}

/// What a list of statements leaves the books at.
pub open spec fn after_all(b: Books, plan: Seq<StatementView>) -> Books
    decreases plan.len(),
{
    if plan.len() == 0 {
        b
    } else {
        after(after_all(b, plan.drop_last()), plan.last())
    }
}

// ---- ingestion over the books ----

/// What settling a charge in the books reads of it.
pub open spec fn to_settle(c: ChargeState) -> ChargeView {
    ChargeView {
        id: c.row.id,
        order_id: c.row.order_id,
        amount_minor: c.row.amount_minor,
        currency: c.row.currency,
        callback_url: c.row.callback_url,
    }
}

/// What matching reads of a charge in the books.
pub open spec fn claim_of(c: ChargeState) -> ClaimView {
    ClaimView {
        id: c.row.id,
        amount_minor: c.row.amount_minor,
        status: c.status,
        customer_msisdn: c.row.customer_msisdn,
    }
}

/// Whether `rows` lists charges of the books, each at most once, and among them every
/// pending one for this amount.
pub open spec fn lists_claims(b: Books, rows: Seq<ClaimView>, amount: int) -> bool {
    &&& forall|i: int|
        0 <= i < rows.len() ==> b.charges.contains_key((#[trigger] rows[i]).id) && rows[i]
            == claim_of(b.charges[rows[i].id])
    &&& forall|i: int, j: int|
        0 <= i < j < rows.len() ==> (#[trigger] rows[i]).id != (#[trigger] rows[j]).id
    &&& forall|id: Seq<char>| #[trigger]
        b.charges.contains_key(id) && is_open_for(amount)(claim_of(b.charges[id])) ==> exists|
            i: int,
        |
            0 <= i < rows.len() && (#[trigger] rows[i]).id == id
}

/// What ingesting a transaction leaves the books at: the event is inserted, and unless it is
/// refused, the charge that it matches is settled.
pub open spec fn ingested(
    b: Books,
    txn: TxnView,
    source: Seq<char>,
    raw_sha256: Seq<char>,
    rows: Seq<ClaimView>,
    randoms: Randoms,
) -> Books {
    let event = event_of(txn, source, raw_sha256, rows, randoms.event);
    let insert = StatementView::InsertSmsEvent(event);
    if refuses(b, insert) {
        b
    } else {
        match event.charge_id {
            None => after(b, insert),
            Some(id) => after_all(
                after(b, insert),
                settlement(to_settle(b.charges[id]), randoms.ltx, randoms.whd),
            ),
        }
    }
}

// ---- matching ----

/// A charge that is matched is pending, asks for the amount, and is the only one that is and
/// does; or else the only one of them that declares the sender.
pub proof fn law_match_is_unambiguous(rows: Seq<ClaimView>, txn: TxnView)
    requires
        matching(rows, txn) is Some,
    ensures
        exists|i: int|
            {
                &&& 0 <= i < rows.len()
                &&& (#[trigger] rows[i]).id == matching(rows, txn).unwrap()
                &&& is_open_for(txn.amount_minor)(rows[i])
                &&& forall|j: int|
                    0 <= j < rows.len() && j != i && is_open_for(txn.amount_minor)(
                        #[trigger] rows[j],
                    ) ==> {
                        &&& txn.sender_msisdn is Some
                        &&& is_declared_by(normalized(txn.sender_msisdn.unwrap()))(rows[i])
                        &&& !is_declared_by(normalized(txn.sender_msisdn.unwrap()))(rows[j])
                    }
            },
{
    let is_open = is_open_for(txn.amount_minor);
    let claims = open_claims(rows, txn.amount_minor);
    if claims.len() == 1 {
        let i = lemma_only_hit(rows, is_open);
        assert(rows[i].id == matching(rows, txn).unwrap());
    } else {
        let declares = is_declared_by(normalized(txn.sender_msisdn.unwrap()));
        let both = |c: ClaimView| is_open(c) && declares(c);
        lemma_filter_filter(rows, is_open, declares);
        let i = lemma_only_hit(rows, both);
        assert(rows[i].id == matching(rows, txn).unwrap());
        assert forall|j: int|
            0 <= j < rows.len() && j != i && is_open(#[trigger] rows[j]) implies !declares(
            rows[j],
        ) by {
            assert(!both(rows[j]));
        }
    }
}

/// Where a filter leaves one element, it is the only one that passes.
pub proof fn lemma_only_hit(s: Seq<ClaimView>, p: spec_fn(ClaimView) -> bool) -> (i: int)
    requires
        s.filter(p).len() == 1,
    ensures
        0 <= i < s.len(),
        s[i] == s.filter(p)[0],
        p(s[i]),
        forall|j: int| 0 <= j < s.len() && j != i ==> !p(#[trigger] s[j]),
    decreases s.len(),
{
    reveal(Seq::filter);
    let t = s.drop_last();
    assert(s =~= t.push(s.last()));
    if p(s.last()) {
        assert(t.filter(p).len() == 0);
        assert forall|j: int| 0 <= j < s.len() && j != s.len() - 1 implies !p(#[trigger] s[j]) by {
            assert(t[j] == s[j]);
            if p(t[j]) {
                t.lemma_filter_contains(p, j);
            }
        }
        s.len() - 1
    } else {
        let i = lemma_only_hit(t, p);
        assert forall|j: int| 0 <= j < s.len() && j != i implies !p(#[trigger] s[j]) by {
            if j < t.len() {
                assert(t[j] == s[j]);
            }
        }
        i
    }
}

/// Filtering twice is filtering by both.
pub proof fn lemma_filter_filter(
    s: Seq<ClaimView>,
    p: spec_fn(ClaimView) -> bool,
    q: spec_fn(ClaimView) -> bool,
)
    ensures
        s.filter(p).filter(q) == s.filter(|c: ClaimView| p(c) && q(c)),
    decreases s.len(),
{
    reveal(Seq::filter);
    if s.len() > 0 {
        let t = s.drop_last();
        lemma_filter_filter(t, p, q);
        if p(s.last()) {
            t.filter(p).lemma_filter_push(s.last(), q);
        }
    }
}

/// Two elements that pass a filter leave it with two or more.
pub proof fn lemma_two_hits(s: Seq<ClaimView>, p: spec_fn(ClaimView) -> bool, i: int, j: int)
    requires
        0 <= i < j < s.len(),
        p(s[i]),
        p(s[j]),
    ensures
        s.filter(p).len() >= 2,
{
    s.lemma_filter_contains(p, i);
    if s.filter(p).len() == 1 {
        let k = lemma_only_hit(s, p);
        assert(i == k && j == k);
    }
}

/// Where two pending charges ask for the amount and the sender does not single one of them
/// out, nothing settles: because the sender is not known, because none declares it, or
/// because both do.
pub proof fn law_ambiguity_settles_nothing(rows: Seq<ClaimView>, txn: TxnView, i: int, j: int)
    requires
        0 <= i < j < rows.len(),
        is_open_for(txn.amount_minor)(rows[i]),
        is_open_for(txn.amount_minor)(rows[j]),
        txn.sender_msisdn matches Some(sender) ==> {
            ||| is_declared_by(normalized(sender))(rows[i]) && is_declared_by(normalized(sender))(
                rows[j],
            )
            ||| forall|k: int|
                0 <= k < rows.len() && is_open_for(txn.amount_minor)(#[trigger] rows[k])
                    ==> !is_declared_by(normalized(sender))(rows[k])
        },
    ensures
        matching(rows, txn) is None,
{
    let is_open = is_open_for(txn.amount_minor);
    lemma_two_hits(rows, is_open, i, j);
    if txn.sender_msisdn is Some {
        let declares = is_declared_by(normalized(txn.sender_msisdn.unwrap()));
        let both = |c: ClaimView| is_open(c) && declares(c);
        lemma_filter_filter(rows, is_open, declares);
        if declares(rows[i]) && declares(rows[j]) {
            lemma_two_hits(rows, both, i, j);
        } else if rows.filter(both).len() == 1 {
            let k = lemma_only_hit(rows, both);
            assert(is_open(rows[k]));
        }
    }
}

/// Leaving out beforehand the charges that are not pending or ask for another amount changes
/// nothing.
pub proof fn law_listing_open_claims_suffices(rows: Seq<ClaimView>, txn: TxnView)
    ensures
        matching(open_claims(rows, txn.amount_minor), txn) == matching(rows, txn),
{
    let p = is_open_for(txn.amount_minor);
    lemma_filter_filter(rows, p, p);
    assert((|c: ClaimView| p(c) && p(c)) =~= p);
}

/// A filter commutes with forgetting the order.
proof fn lemma_filter_multiset(s: Seq<ClaimView>, p: spec_fn(ClaimView) -> bool)
    ensures
        s.filter(p).to_multiset() =~= s.to_multiset().filter(p),
    decreases s.len(),
{
    broadcast use vstd::multiset::group_multiset_axioms;

    reveal(Seq::filter);
    s.to_multiset_ensures();
    if s.len() == 0 {
        assert(s.filter(p) =~= s);
        assert(s.to_multiset() =~= vstd::multiset::Multiset::empty());
        assert(s.to_multiset().filter(p) =~= vstd::multiset::Multiset::empty());
    } else {
        let t = s.drop_last();
        let x = s.last();
        lemma_filter_multiset(t, p);
        assert(s =~= t.push(x));
        t.to_multiset_ensures();
        t.filter(p).to_multiset_ensures();
        assert(s.to_multiset() =~= t.to_multiset().insert(x));
        if p(x) {
            assert(s.filter(p) =~= t.filter(p).push(x));
            assert(t.to_multiset().insert(x).filter(p) =~= t.to_multiset().filter(p).insert(x));
        } else {
            assert(t.to_multiset().insert(x).filter(p) =~= t.to_multiset().filter(p));
        }
    }
}

/// Two lists of one element that are equal but for their order are equal.
proof fn lemma_same_single(a: Seq<ClaimView>, b: Seq<ClaimView>)
    requires
        a.to_multiset() == b.to_multiset(),
    ensures
        a.len() == b.len(),
        a.len() == 1 ==> a[0] == b[0],
{
    broadcast use vstd::multiset::group_multiset_axioms;

    a.to_multiset_ensures();
    b.to_multiset_ensures();
    if a.len() == 1 {
        assert(a.contains(a[0]));
        assert(b.to_multiset().count(a[0]) > 0);
        assert(b.contains(a[0]));
    }
}

/// The order in which the database lists the charges makes no difference: no charge is
/// preferred for being older.
pub proof fn law_row_order_is_irrelevant(rows: Seq<ClaimView>, other: Seq<ClaimView>, txn: TxnView)
    requires
        rows.to_multiset() == other.to_multiset(),
    ensures
        matching(rows, txn) == matching(other, txn),
{
    let is_open = is_open_for(txn.amount_minor);
    let a = open_claims(rows, txn.amount_minor);
    let b = open_claims(other, txn.amount_minor);
    lemma_filter_multiset(rows, is_open);
    lemma_filter_multiset(other, is_open);
    lemma_same_single(a, b);
    if txn.sender_msisdn is Some {
        let declares = is_declared_by(normalized(txn.sender_msisdn.unwrap()));
        lemma_filter_multiset(a, declares);
        lemma_filter_multiset(b, declares);
        lemma_same_single(a.filter(declares), b.filter(declares));
    }
}

// ---- idempotency ----

/// A transaction that is in the books already, under its gateway and id, changes nothing
/// when it arrives again, whatever else it says and however it was read.
pub proof fn law_replay_changes_nothing(
    b: Books,
    txn: TxnView,
    source: Seq<char>,
    raw_sha256: Seq<char>,
    rows: Seq<ClaimView>,
    randoms: Randoms,
)
    requires
        b.events.contains_key((txn.gateway, txn.txn_id)),
    ensures
        ingested(b, txn, source, raw_sha256, rows, randoms) == b,
{
}

/// What the statements that settle a charge leave the books at.
proof fn lemma_settled(b: Books, c: ChargeView, ltx: Seq<char>, whd: Seq<char>)
    requires
        b.charges.contains_key(c.id),
    ensures
        ({
            let b2 = after_all(b, settlement(c, ltx, whd));
            &&& b2.charges == b.charges.insert(
                c.id,
                ChargeState { status: "paid"@, ..b.charges[c.id] },
            )
            &&& b2.events == b.events
            &&& b2.ledger == b.ledger.push(settling_posting(c, ltx))
            &&& b2.invoices == after(
                b,
                StatementView::SettleInvoices { charge_id: c.id },
            ).invoices
            &&& b2.links == b.links
            &&& c.callback_url is None ==> b2.deliveries == b.deliveries
            &&& c.callback_url matches Some(url) ==> b2.deliveries.len() == b.deliveries.len() + 1
                && b2.deliveries.last().charge_id == c.id && b2.deliveries.last().url == url
        }),
{
    let plan = settlement(c, ltx, whd);
    reveal_with_fuel(after_all, 5);
    let p0 = StatementView::PostLedger(settling_posting(c, ltx));
    let p1 = StatementView::MarkChargePaid { id: c.id };
    let p2 = StatementView::SettleInvoices { charge_id: c.id };
    let three = seq![p0, p1, p2];
    assert(three.drop_last() =~= seq![p0, p1]);
    assert(seq![p0, p1].drop_last() =~= seq![p0]);
    assert(seq![p0].drop_last() =~= Seq::<StatementView>::empty());
    let b1 = after(b, p0);
    let b2 = after(b1, p1);
    let b3 = after(b2, p2);
    assert(after_all(b, three) == b3);
    assert(b3.invoices =~= after(b, p2).invoices);
    if c.callback_url is Some {
        assert(plan.drop_last() =~= three);
    } else {
        assert(plan =~= three);
    }
}

/// An SMS is credited once: however often it is ingested after the first time, with whatever
/// charges listed, the books stay as the first time left them.
pub proof fn law_sms_credits_once(
    b: Books,
    txn: TxnView,
    source: Seq<char>,
    raw_sha256: Seq<char>,
    rows: Seq<ClaimView>,
    randoms: Randoms,
    again: TxnView,
    source2: Seq<char>,
    raw_sha2562: Seq<char>,
    rows2: Seq<ClaimView>,
    randoms2: Randoms,
)
    requires
        again.gateway == txn.gateway,
        again.txn_id == txn.txn_id,
        lists_claims(b, rows, txn.amount_minor),
        keyed(b),
    ensures
        ({
            let first = ingested(b, txn, source, raw_sha256, rows, randoms);
            ingested(first, again, source2, raw_sha2562, rows2, randoms2) == first
        }),
{
    let first = ingested(b, txn, source, raw_sha256, rows, randoms);
    let event = event_of(txn, source, raw_sha256, rows, randoms.event);
    let insert = StatementView::InsertSmsEvent(event);
    if !refuses(b, insert) && matching(rows, txn) is Some {
        law_match_is_unambiguous(rows, txn);
        let id = matching(rows, txn).unwrap();
        let c = to_settle(b.charges[id]);
        assert(c.id == id);
        lemma_settled(after(b, insert), c, randoms.ltx, randoms.whd);
    }
    assert(first.events.contains_key((txn.gateway, txn.txn_id)));
}

// ---- the steps of an ingestion ----

/// One step of an ingestion whose answers come from the books: the books and the ingestion
/// after it.
pub open spec fn played_once(
    b: Books,
    s: IngestionView,
    rows: Seq<ClaimView>,
    randoms: Randoms,
) -> (Books, IngestionView) {
    match s {
        IngestionView::ListClaims(_) => (b, resumed(s, AnswerView::Claims(rows), randoms)),
        IngestionView::Insert(e) => {
            let insert = StatementView::InsertSmsEvent(e);
            let reply = if refuses(b, insert) {
                ReplyView::Duplicate
            } else {
                ReplyView::Done { rows: 1 }
            };
            (after(b, insert), resumed(s, AnswerView::Replied(reply), randoms))
        },
        IngestionView::LoadCharge(ingested) => {
            let id = ingested.matched_charge.unwrap();
            let row = if b.charges.contains_key(id) {
                Some(to_settle(b.charges[id]))
            } else {
                None
            };
            (b, resumed(s, AnswerView::Found(row), randoms))
        },
        IngestionView::Settle { plan, next, .. } => (
            after(b, plan[next]),
            resumed(s, AnswerView::Replied(ReplyView::Done { rows: 1 }), randoms),
        ),
        _ => (b, s),
    }
}

/// `n` steps of an ingestion whose answers come from the books.
pub open spec fn played(
    b: Books,
    s: IngestionView,
    rows: Seq<ClaimView>,
    randoms: Randoms,
    n: nat,
) -> (Books, IngestionView)
    decreases n,
{
    if n == 0 {
        (b, s)
    } else {
        let (b2, s2) = played_once(b, s, rows, randoms);
        played(b2, s2, rows, randoms, (n - 1) as nat)
    }
}

/// Settling carries out its plan from its place to the end.
proof fn lemma_settling_played(
    b: Books,
    plan: Seq<StatementView>,
    next: int,
    ingested: IngestedView,
    rows: Seq<ClaimView>,
    randoms: Randoms,
    n: nat,
)
    requires
        0 <= next < plan.len(),
        plan.len() - next <= n,
    ensures
        played(b, IngestionView::Settle { plan, next, ingested }, rows, randoms, n) == (
            after_all(b, plan.skip(next)),
            IngestionView::Finished(ingested),
        ),
    decreases plan.len() - next,
{
    let b2 = after(b, plan[next]);
    let rest = (n - 1) as nat;
    lemma_after_first(b, plan.skip(next));
    assert(plan.skip(next)[0] == plan[next]);
    assert(plan.skip(next).skip(1) =~= plan.skip(next + 1));
    if next + 1 < plan.len() {
        lemma_settling_played(b2, plan, next + 1, ingested, rows, randoms, rest);
    } else {
        assert(plan.skip(next + 1) =~= Seq::<StatementView>::empty());
        lemma_end_stays(b2, IngestionView::Finished(ingested), rows, randoms, rest);
    }
}

/// An ingestion that waits for nothing stays as it is.
proof fn lemma_end_stays(
    b: Books,
    s: IngestionView,
    rows: Seq<ClaimView>,
    randoms: Randoms,
    n: nat,
)
    requires
        s is Finished || s is Refused,
    ensures
        played(b, s, rows, randoms, n) == (b, s),
    decreases n,
{
    if n > 0 {
        lemma_end_stays(b, s, rows, randoms, (n - 1) as nat);
    }
}

/// One step, then the rest.
proof fn lemma_step(
    b: Books,
    s: IngestionView,
    rows: Seq<ClaimView>,
    randoms: Randoms,
    n: nat,
    b2: Books,
    s2: IngestionView,
)
    requires
        (b2, s2) == played_once(b, s, rows, randoms),
    ensures
        played(b, s, rows, randoms, n + 1) == played(b2, s2, rows, randoms, n),
{
}

/// The first statement of a list comes first.
proof fn lemma_after_first(b: Books, plan: Seq<StatementView>)
    requires
        plan.len() > 0,
    ensures
        after_all(b, plan) == after_all(after(b, plan[0]), plan.skip(1)),
    decreases plan.len(),
{
    if plan.len() == 1 {
        assert(plan.drop_last() =~= Seq::<StatementView>::empty());
        assert(plan.skip(1) =~= Seq::<StatementView>::empty());
        reveal_with_fuel(after_all, 2);
    } else {
        lemma_after_first(b, plan.drop_last());
        assert(plan.drop_last().skip(1) =~= plan.skip(1).drop_last());
        assert(plan.skip(1).last() == plan.last());
    }
}

/// The steps of an ingestion, with every answer as the books give it, leave the books as
/// [`ingested`] says, and end with what is told of the event, or with a duplicate.
pub proof fn law_steps_make_an_ingestion(
    b: Books,
    reading: ReadingView,
    rows: Seq<ClaimView>,
    randoms: Randoms,
)
    requires
        keyed(b),
        lists_claims(b, rows, reading.parsed.amount_minor),
    ensures
        ({
            let (b2, s2) = played(b, IngestionView::ListClaims(reading), rows, randoms, 7);
            let event = event_of(
                reading.parsed,
                reading.source,
                reading.raw_sha256,
                rows,
                randoms.event,
            );
            &&& b2 == ingested(
                b,
                reading.parsed,
                reading.source,
                reading.raw_sha256,
                rows,
                randoms,
            )
            &&& s2 == if refuses(b, StatementView::InsertSmsEvent(event)) {
                IngestionView::Refused(IngestErrorView::Duplicate)
            } else {
                IngestionView::Finished(told_of(event))
            }
        }),
{
    let event = event_of(
        reading.parsed,
        reading.source,
        reading.raw_sha256,
        rows,
        randoms.event,
    );
    let insert = StatementView::InsertSmsEvent(event);
    let b1 = after(b, insert);
    let s1 = IngestionView::Insert(event);
    lemma_step(b, IngestionView::ListClaims(reading), rows, randoms, 6, b, s1);
    if refuses(b, insert) {
        let s2 = IngestionView::Refused(IngestErrorView::Duplicate);
        lemma_step(b, s1, rows, randoms, 5, b, s2);
        lemma_end_stays(b, s2, rows, randoms, 5);
    } else if event.charge_id is None {
        let s2 = IngestionView::Finished(told_of(event));
        lemma_step(b, s1, rows, randoms, 5, b1, s2);
        lemma_end_stays(b1, s2, rows, randoms, 5);
    } else {
        law_match_is_unambiguous(rows, reading.parsed);
        let id = event.charge_id.unwrap();
        let c = to_settle(b.charges[id]);
        let plan = settlement(c, randoms.ltx, randoms.whd);
        let s2 = IngestionView::LoadCharge(told_of(event));
        let s3 = IngestionView::Settle { plan, next: 0, ingested: told_of(event) };
        lemma_step(b, s1, rows, randoms, 5, b1, s2);
        lemma_step(b1, s2, rows, randoms, 4, b1, s3);
        lemma_settling_played(b1, plan, 0, told_of(event), rows, randoms, 4);
        assert(plan.skip(0) =~= plan);
    }
}

// ---- soundness ----

/// Whether every charge stands under its own identifier.
pub open spec fn keyed(b: Books) -> bool {
    forall|id: Seq<char>| #[trigger]
        b.charges.contains_key(id) ==> b.charges[id].row.id == id
}

/// Whether the books are sound: every ledger transaction balances and settles a charge that
/// is paid; no two settle the same charge; and every charge that is paid is settled by one.
pub open spec fn sound(b: Books) -> bool {
    &&& keyed(b)
    &&& forall|i: int| 0 <= i < b.ledger.len() ==> balanced(#[trigger] b.ledger[i])
    &&& forall|i: int|
        0 <= i < b.ledger.len() ==> is_paid(b, (#[trigger] b.ledger[i]).reference)
    &&& forall|i: int, j: int|
        0 <= i < j < b.ledger.len() ==> (#[trigger] b.ledger[i]).reference != (
        #[trigger] b.ledger[j]).reference
    &&& forall|id: Seq<char>| #[trigger]
        is_paid(b, id) ==> exists|i: int|
            0 <= i < b.ledger.len() && (#[trigger] b.ledger[i]).reference == id
}

/// Whether a charge is paid.
pub open spec fn is_paid(b: Books, id: Seq<char>) -> bool {
    b.charges.contains_key(id) && b.charges[id].status == "paid"@
}

/// A charge that is pending is not paid.
proof fn lemma_pending_is_not_paid()
    ensures
        "pending"@ != "paid"@,
{
    reveal_strlit("pending");
    reveal_strlit("paid");
    assert("pending"@.len() != "paid"@.len());
}

/// Books with nothing in them are sound.
pub proof fn law_empty_books_are_sound(b: Books)
    requires
        b.charges.dom() == Set::<Seq<char>>::empty(),
        b.ledger.len() == 0,
    ensures
        sound(b),
{
}

/// Ingesting an SMS keeps the books sound: it settles a charge that was not settled before,
/// or none.
pub proof fn law_ingestion_keeps_books_sound(
    b: Books,
    txn: TxnView,
    source: Seq<char>,
    raw_sha256: Seq<char>,
    rows: Seq<ClaimView>,
    randoms: Randoms,
)
    requires
        sound(b),
        lists_claims(b, rows, txn.amount_minor),
    ensures
        sound(ingested(b, txn, source, raw_sha256, rows, randoms)),
{
    let event = event_of(txn, source, raw_sha256, rows, randoms.event);
    let insert = StatementView::InsertSmsEvent(event);
    let b2 = ingested(b, txn, source, raw_sha256, rows, randoms);
    if refuses(b, insert) {
    } else if matching(rows, txn) is None {
        assert(b2.charges == b.charges && b2.ledger == b.ledger);
        assert forall|id: Seq<char>| #[trigger] is_paid(b2, id) implies exists|i: int|
            0 <= i < b2.ledger.len() && (#[trigger] b2.ledger[i]).reference == id by {
            assert(is_paid(b, id));
        }
        assert forall|i: int| 0 <= i < b2.ledger.len() implies is_paid(
            b2,
            (#[trigger] b2.ledger[i]).reference,
        ) by {
            assert(is_paid(b, b.ledger[i].reference));
        }
    } else {
        law_match_is_unambiguous(rows, txn);
        let id = matching(rows, txn).unwrap();
        let c = to_settle(b.charges[id]);
        assert(c.id == id);
        lemma_settled(after(b, insert), c, randoms.ltx, randoms.whd);
        lemma_pending_is_not_paid();
        assert(!is_paid(b, id));
        let posting = settling_posting(c, randoms.ltx);
        law_debit_and_credit_balance(
            MERCHANT_RECEIVABLE@,
            CUSTOMER_CLEARING@,
            c.amount_minor,
            c.currency,
        );
        assert(balanced(posting));
        let n = b.ledger.len() as int;
        assert forall|i: int| 0 <= i < b2.ledger.len() implies balanced(#[trigger] b2.ledger[i]) by {
            if i < n {
                assert(b2.ledger[i] == b.ledger[i]);
            }
        }
        assert forall|i: int| 0 <= i < b2.ledger.len() implies is_paid(
            b2,
            (#[trigger] b2.ledger[i]).reference,
        ) by {
            if i < n {
                assert(b2.ledger[i] == b.ledger[i]);
                assert(is_paid(b, b.ledger[i].reference));
            }
        }
        assert forall|i: int, j: int| 0 <= i < j < b2.ledger.len() implies (
        #[trigger] b2.ledger[i]).reference != (#[trigger] b2.ledger[j]).reference by {
            assert(b2.ledger[i] == b.ledger[i]);
            if j < n {
                assert(b2.ledger[j] == b.ledger[j]);
            } else {
                assert(is_paid(b, b.ledger[i].reference));
            }
        }
        assert forall|x: Seq<char>| #[trigger] is_paid(b2, x) implies exists|i: int|
            0 <= i < b2.ledger.len() && (#[trigger] b2.ledger[i]).reference == x by {
            if x == id {
                assert(b2.ledger[n].reference == id);
            } else {
                assert(is_paid(b, x));
                let i = choose|i: int|
                    0 <= i < b.ledger.len() && (#[trigger] b.ledger[i]).reference == x;
                assert(b2.ledger[i] == b.ledger[i]);
            }
        }
    }
}

/// Every statement but the two that settle a charge keeps the books sound.
pub proof fn law_other_statements_keep_books_sound(b: Books, s: StatementView)
    requires
        sound(b),
        !(s is PostLedger),
        !(s is MarkChargePaid),
    ensures
        sound(after(b, s)),
{
    let b2 = after(b, s);
    lemma_pending_is_not_paid();
    assert(b2.ledger == b.ledger);
    assert forall|id: Seq<char>| is_paid(b2, id) <==> #[trigger] is_paid(b, id) by {
        law_only_settlement_pays(b, s, id);
    }
    assert forall|id: Seq<char>| #[trigger] is_paid(b2, id) implies exists|i: int|
        0 <= i < b2.ledger.len() && (#[trigger] b2.ledger[i]).reference == id by {
        assert(is_paid(b, id));
    }
    assert forall|i: int| 0 <= i < b2.ledger.len() implies is_paid(
        b2,
        (#[trigger] b2.ledger[i]).reference,
    ) by {
        assert(is_paid(b, b.ledger[i].reference));
    }
    assert(keyed(b2));
}

/// No statement but the one that settles a charge makes a charge paid, and none makes a paid
/// one unpaid.
pub proof fn law_only_settlement_pays(b: Books, s: StatementView, id: Seq<char>)
    requires
        !(s is MarkChargePaid),
    ensures
        is_paid(after(b, s), id) <==> is_paid(b, id),
{
    lemma_pending_is_not_paid();
}

/// The ledger of sound books sums to zero.
pub proof fn law_sound_books_net_to_zero(b: Books)
    requires
        sound(b),
    ensures
        total(all_entries(b.ledger)) == 0,
{
    law_ledger_nets_to_zero(b.ledger);
}

/// However early the settlement of a charge is cut short, the ledger balances: its one
/// transaction is written whole or not at all.
pub proof fn law_settlement_cut_short_balances(
    b: Books,
    c: ChargeView,
    ltx: Seq<char>,
    whd: Seq<char>,
    k: int,
)
    requires
        forall|i: int| 0 <= i < b.ledger.len() ==> balanced(#[trigger] b.ledger[i]),
        0 <= k <= settlement(c, ltx, whd).len(),
    ensures
        total(all_entries(after_all(b, settlement(c, ltx, whd).take(k)).ledger)) == 0,
    decreases k,
{
    lemma_cut_short(b, c, ltx, whd, k);
    law_ledger_nets_to_zero(after_all(b, settlement(c, ltx, whd).take(k)).ledger);
}

/// Every transaction balances after part of a settlement.
proof fn lemma_cut_short(b: Books, c: ChargeView, ltx: Seq<char>, whd: Seq<char>, k: int)
    requires
        forall|i: int| 0 <= i < b.ledger.len() ==> balanced(#[trigger] b.ledger[i]),
        0 <= k <= settlement(c, ltx, whd).len(),
    ensures
        ({
            let b2 = after_all(b, settlement(c, ltx, whd).take(k));
            forall|i: int| 0 <= i < b2.ledger.len() ==> balanced(#[trigger] b2.ledger[i])
        }),
    decreases k,
{
    let plan = settlement(c, ltx, whd);
    if k > 0 {
        lemma_cut_short(b, c, ltx, whd, k - 1);
        assert(plan.take(k).drop_last() =~= plan.take(k - 1));
        assert(plan.take(k).last() == plan[k - 1]);
        let b1 = after_all(b, plan.take(k - 1));
        let b2 = after_all(b, plan.take(k));
        assert(b2 == after(b1, plan[k - 1]));
        law_debit_and_credit_balance(
            MERCHANT_RECEIVABLE@,
            CUSTOMER_CLEARING@,
            c.amount_minor,
            c.currency,
        );
        assert(balanced(settling_posting(c, ltx)));
        assert forall|i: int| 0 <= i < b2.ledger.len() implies balanced(#[trigger] b2.ledger[i]) by {
            if i < b1.ledger.len() {
                assert(b2.ledger[i] == b1.ledger[i]);
            }
        }
    }
}

// ---- what one settlement does ----

/// A transaction that is new and matches a charge settles that charge and no other: the
/// charge is paid, every other is as it was, and its amount moves from the customer's account
/// to the merchant's.
pub proof fn law_match_settles_its_charge(
    b: Books,
    txn: TxnView,
    source: Seq<char>,
    raw_sha256: Seq<char>,
    rows: Seq<ClaimView>,
    randoms: Randoms,
)
    requires
        keyed(b),
        lists_claims(b, rows, txn.amount_minor),
        !b.events.contains_key((txn.gateway, txn.txn_id)),
        matching(rows, txn) is Some,
    ensures
        ({
            let b2 = ingested(b, txn, source, raw_sha256, rows, randoms);
            let id = matching(rows, txn).unwrap();
            &&& b.charges.contains_key(id)
            &&& b.charges[id].status == "pending"@
            &&& is_paid(b2, id)
            &&& b2.charges == b.charges.insert(
                id,
                ChargeState { status: "paid"@, ..b.charges[id] },
            )
            &&& b2.events == b.events.insert(
                (txn.gateway, txn.txn_id),
                event_of(txn, source, raw_sha256, rows, randoms.event),
            )
            &&& b2.events[(txn.gateway, txn.txn_id)].matched == 1
            &&& b2.events[(txn.gateway, txn.txn_id)].charge_id == Some(id)
            &&& b2.ledger.len() == b.ledger.len() + 1
            &&& balance(all_entries(b2.ledger), MERCHANT_RECEIVABLE@) == balance(
                all_entries(b.ledger),
                MERCHANT_RECEIVABLE@,
            ) + txn.amount_minor
            &&& balance(all_entries(b2.ledger), CUSTOMER_CLEARING@) == balance(
                all_entries(b.ledger),
                CUSTOMER_CLEARING@,
            ) - txn.amount_minor
            &&& b.charges[id].row.callback_url is Some <==> b2.deliveries.len()
                == b.deliveries.len() + 1
        }),
{
    law_match_is_unambiguous(rows, txn);
    let id = matching(rows, txn).unwrap();
    let event = event_of(txn, source, raw_sha256, rows, randoms.event);
    let insert = StatementView::InsertSmsEvent(event);
    let c = to_settle(b.charges[id]);
    assert(c.id == id);
    lemma_settled(after(b, insert), c, randoms.ltx, randoms.whd);
    let b2 = ingested(b, txn, source, raw_sha256, rows, randoms);
    let p = settling_posting(c, randoms.ltx);
    assert(b2.ledger.drop_last() =~= b.ledger);
    assert(b2.ledger.last() == p);
    lemma_total_add(all_entries(b.ledger), p.entries, MERCHANT_RECEIVABLE@);
    lemma_total_add(all_entries(b.ledger), p.entries, CUSTOMER_CLEARING@);
    lemma_settling_balances(c, randoms.ltx);
}

/// What the transaction that settles a charge does to the two accounts.
proof fn lemma_settling_balances(c: ChargeView, ltx: Seq<char>)
    ensures
        balance(settling_posting(c, ltx).entries, MERCHANT_RECEIVABLE@) == c.amount_minor,
        balance(settling_posting(c, ltx).entries, CUSTOMER_CLEARING@) == -c.amount_minor,
{
    let entries = settling_posting(c, ltx).entries;
    reveal_with_fuel(balance, 3);
    reveal_strlit("merchant:receivable");
    reveal_strlit("customer:clearing");
    assert(MERCHANT_RECEIVABLE@.len() != CUSTOMER_CLEARING@.len());
    assert(entries.drop_last() =~= seq![entries[0]]);
    assert(seq![entries[0]].drop_last() =~= Seq::<EntryView>::empty());
}

/// A transaction that matches no charge is recorded, and moves nothing.
pub proof fn law_no_match_moves_nothing(
    b: Books,
    txn: TxnView,
    source: Seq<char>,
    raw_sha256: Seq<char>,
    rows: Seq<ClaimView>,
    randoms: Randoms,
)
    requires
        matching(rows, txn) is None,
    ensures
        ({
            let b2 = ingested(b, txn, source, raw_sha256, rows, randoms);
            &&& b2.charges == b.charges
            &&& b2.ledger == b.ledger
            &&& b2.deliveries == b.deliveries
            &&& b2.invoices == b.invoices
            &&& b2.events.contains_key((txn.gateway, txn.txn_id))
            &&& !b.events.contains_key((txn.gateway, txn.txn_id))
                ==> b2.events[(txn.gateway, txn.txn_id)].matched == 0
        }),
{
}

// ---- customers, orders, invoices and links ----

/// A customer who chooses a gateway or claims a transaction settles nothing: every charge
/// keeps its row and its status, and no money moves.
pub proof fn law_customer_cannot_settle(b: Books, s: StatementView)
    requires
        s is SelectGateway || s is ClaimTransaction,
    ensures
        after(b, s).charges.dom() == b.charges.dom(),
        forall|id: Seq<char>| #[trigger]
            b.charges.contains_key(id) ==> after(b, s).charges[id].row == b.charges[id].row
                && after(b, s).charges[id].status == b.charges[id].status,
        after(b, s).ledger == b.ledger,
        after(b, s).events == b.events,
        after(b, s).deliveries == b.deliveries,
        after(b, s).invoices == b.invoices,
{
    assert(after(b, s).charges.dom() =~= b.charges.dom());
}

/// A second charge for the same order is refused.
pub proof fn law_duplicate_order_is_refused(b: Books, c: NewChargeView, again: NewChargeView)
    requires
        !refuses(b, StatementView::InsertCharge(c)),
        again.order_id == c.order_id,
    ensures
        refuses(after(b, StatementView::InsertCharge(c)), StatementView::InsertCharge(again)),
{
    let b2 = after(b, StatementView::InsertCharge(c));
    assert(b2.charges.contains_key(c.id) && b2.charges[c.id].row.order_id == again.order_id);
}

/// An unpaid invoice that is bound to a charge is paid once the charge is settled, and every
/// other invoice is left as it was.
pub proof fn law_invoice_settles_with_its_charge(
    b: Books,
    c: ChargeView,
    ltx: Seq<char>,
    whd: Seq<char>,
    id: Seq<char>,
)
    requires
        b.charges.contains_key(c.id),
        b.invoices.contains_key(id),
    ensures
        ({
            let b2 = after_all(b, settlement(c, ltx, whd));
            &&& b2.invoices.contains_key(id)
            &&& b2.invoices[id].amount_minor == b.invoices[id].amount_minor
            &&& b.invoices[id].charge_id == Some(c.id) && b.invoices[id].status == "unpaid"@
                ==> b2.invoices[id].status == "paid"@
            &&& b.invoices[id].charge_id != Some(c.id) ==> b2.invoices[id] == b.invoices[id]
        }),
{
    lemma_settled(b, c, ltx, whd);
}

/// What taking `n` uses off a link leaves the books at.
pub open spec fn after_uses(b: Books, reference: Seq<char>, n: nat) -> Books
    decreases n,
{
    if n == 0 {
        b
    } else {
        after(
            after_uses(b, reference, (n - 1) as nat),
            StatementView::ConsumeLink { reference },
        )
    }
}

/// A link of limited quantity can be opened that many times and no more.
pub proof fn law_quantity_caps_opens(b: Books, reference: Seq<char>, quantity: nat, n: nat)
    requires
        b.links.contains_key(reference),
        b.links[reference] == Some(quantity as int),
    ensures
        after_uses(b, reference, n).links.contains_key(reference),
        after_uses(b, reference, n).links[reference] == Some(
            if n <= quantity {
                quantity - n
            } else {
                0
            },
        ),
        has_use_left(after_uses(b, reference, n), reference) <==> n < quantity,
    decreases n,
{
    if n > 0 {
        law_quantity_caps_opens(b, reference, quantity, (n - 1) as nat);
    }
}

/// The statements that issue a payment for an invoice bind the invoice to the charge that
/// they insert, so that the invoice is paid when the charge is settled.
pub proof fn law_issuing_binds_the_invoice(
    b: Books,
    c: NewChargeView,
    id: Seq<char>,
    pay_ref: Seq<char>,
)
    requires
        b.invoices.contains_key(id),
        !refuses(b, StatementView::InsertCharge(c)),
    ensures
        ({
            let b2 = after_all(
                b,
                seq![
                    StatementView::InsertCharge(c),
                    StatementView::BindInvoice { id, pay_ref, charge_id: c.id },
                ],
            );
            &&& b2.charges.contains_key(c.id)
            &&& b2.charges[c.id].row == c
            &&& b2.charges[c.id].status == "pending"@
            &&& b2.invoices.contains_key(id)
            &&& b2.invoices[id] == (InvoiceState {
                charge_id: Some(c.id),
                pay_ref: Some(pay_ref),
                ..b.invoices[id]
            })
        }),
{
    let s0 = StatementView::InsertCharge(c);
    let s1 = StatementView::BindInvoice { id, pay_ref, charge_id: c.id };
    reveal_with_fuel(after_all, 3);
    assert(seq![s0, s1].drop_last() =~= seq![s0]);
    assert(seq![s0].drop_last() =~= Seq::<StatementView>::empty());
}

/// The ledger is only ever appended to: whatever a statement does, the transactions that
/// were written before stand as they were.
pub proof fn law_ledger_is_append_only(b: Books, s: StatementView)
    ensures
        b.ledger.is_prefix_of(after(b, s).ledger),
{
}

// ---- reconciliation ----

/// The sum of the amounts of some events.
pub open spec fn sum_of(events: Seq<SmsRecord>) -> int
    decreases events.len(),
{
    if events.len() == 0 {
        0
    } else {
        sum_of(events.drop_last()) + events.last().amount_minor
    }
}

/// Whether `list` holds the events of the books that matched a charge, each once.
pub open spec fn lists_matched(b: Books, list: Seq<SmsRecord>) -> bool {
    &&& forall|i: int|
        #![trigger list[i]]
        0 <= i < list.len() ==> {
            &&& list[i].matched == 1
            &&& b.events.contains_key((list[i].gateway, list[i].txn_id))
            &&& b.events[(list[i].gateway, list[i].txn_id)] == list[i]
        }
    &&& forall|i: int, j: int|
        0 <= i < j < list.len() ==> (#[trigger] list[i]).gateway != (#[trigger] list[j]).gateway
            || list[i].txn_id != list[j].txn_id
    &&& forall|key: (Seq<char>, Seq<char>)| #[trigger]
        b.events.contains_key(key) && b.events[key].matched == 1 ==> list.contains(b.events[key])
}

/// Whether the merchant's account stands at what the matched events sum to.
pub open spec fn reconciles(b: Books, list: Seq<SmsRecord>) -> bool {
    &&& lists_matched(b, list)
    &&& balance(all_entries(b.ledger), MERCHANT_RECEIVABLE@) == sum_of(list)
}

/// Ingesting an SMS keeps the events and the ledger in agreement: what the matched events sum
/// to is what the merchant is owed.
pub proof fn law_ingestion_keeps_reconciliation(
    b: Books,
    txn: TxnView,
    source: Seq<char>,
    raw_sha256: Seq<char>,
    rows: Seq<ClaimView>,
    randoms: Randoms,
    list: Seq<SmsRecord>,
)
    requires
        keyed(b),
        lists_claims(b, rows, txn.amount_minor),
        reconciles(b, list),
    ensures
        ({
            let b2 = ingested(b, txn, source, raw_sha256, rows, randoms);
            let event = event_of(txn, source, raw_sha256, rows, randoms.event);
            if !b.events.contains_key((txn.gateway, txn.txn_id)) && matching(rows, txn) is Some {
                reconciles(b2, list.push(event))
            } else {
                reconciles(b2, list)
            }
        }),
{
    let b2 = ingested(b, txn, source, raw_sha256, rows, randoms);
    let event = event_of(txn, source, raw_sha256, rows, randoms.event);
    let key = (txn.gateway, txn.txn_id);
    if b.events.contains_key(key) {
        law_replay_changes_nothing(b, txn, source, raw_sha256, rows, randoms);
    } else if matching(rows, txn) is None {
        law_no_match_moves_nothing(b, txn, source, raw_sha256, rows, randoms);
        assert(b2.events == b.events.insert(key, event));
        assert(lists_matched(b2, list));
    } else {
        law_match_settles_its_charge(b, txn, source, raw_sha256, rows, randoms);
        let longer = list.push(event);
        assert(longer.drop_last() =~= list);
        assert(longer[list.len() as int] == event);
        assert forall|k: (Seq<char>, Seq<char>)| #[trigger]
            b2.events.contains_key(k) && b2.events[k].matched == 1 implies longer.contains(
            b2.events[k],
        ) by {
            if k != key {
                assert(b.events.contains_key(k));
                let i = choose|i: int| 0 <= i < list.len() && list[i] == b.events[k];
                assert(longer[i] == b2.events[k]);
            }
        }
        assert forall|i: int, j: int| 0 <= i < j < longer.len() implies (
        #[trigger] longer[i]).gateway != (#[trigger] longer[j]).gateway || longer[i].txn_id
            != longer[j].txn_id by {
            assert(longer[i] == list[i]);
            if j < list.len() {
                assert(longer[j] == list[j]);
            } else {
                assert(b.events.contains_key((list[i].gateway, list[i].txn_id)));
            }
        }
        assert forall|i: int|
            #![trigger longer[i]]
            0 <= i < longer.len() implies longer[i].matched == 1 && b2.events.contains_key(
            (longer[i].gateway, longer[i].txn_id),
        ) && b2.events[(longer[i].gateway, longer[i].txn_id)] == longer[i] by {
            if i < list.len() {
                assert(longer[i] == list[i]);
                assert(b.events.contains_key((list[i].gateway, list[i].txn_id)));
            }
        }
        assert(lists_matched(b2, longer));
    }
}

/// Settling a charge touches no invoice but the unpaid ones that are bound to it, and of those
/// nothing but the status.
pub proof fn law_settling_leaves_other_invoices(b: Books, charge_id: Seq<char>, id: Seq<char>)
    requires
        b.invoices.contains_key(id),
    ensures
        ({
            let before = b.invoices[id];
            let b2 = after(b, StatementView::SettleInvoices { charge_id });
            &&& b2.invoices.contains_key(id)
            &&& before.charge_id != Some(charge_id) || before.status != "unpaid"@
                ==> b2.invoices[id] == before
            &&& b2.invoices[id].amount_minor == before.amount_minor
            &&& b2.invoices[id].charge_id == before.charge_id
            &&& b2.invoices[id].pay_ref == before.pay_ref
        }),
{
}

/// What a customer picks or claims goes to the pending charge with their reference, and to no
/// other.
pub proof fn law_choices_go_to_the_pending_charge(
    b: Books,
    id: Seq<char>,
    pay_ref: Seq<char>,
    gateway: Seq<char>,
    trx_id: Seq<char>,
    sender: Option<Seq<char>>,
)
    requires
        b.charges.contains_key(id),
    ensures
        ({
            let before = b.charges[id];
            let picked = after(b, StatementView::SelectGateway { pay_ref, gateway }).charges[id];
            let claimed = after(
                b,
                StatementView::ClaimTransaction { pay_ref, trx_id, sender },
            ).charges[id];
            if before.row.pay_ref == Some(pay_ref) && before.status == "pending"@ {
                &&& picked.gateway == Some(gateway)
                &&& picked.claimed_trx_id == before.claimed_trx_id
                &&& claimed.claimed_trx_id == Some(trx_id)
                &&& claimed.claimed_sender == sender
                &&& claimed.gateway == before.gateway
            } else {
                &&& picked == before
                &&& claimed == before
            }
        }),
{
}

} // verus!

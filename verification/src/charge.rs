//! Charges: the merchant-facing unit of intent, "collect X from order Y".
//!
//! Creating one is pure bookkeeping; no money moves until a matching SMS is verified, at
//! which point the charge is marked paid and settled into the ledger.

use crate::ids::{is_random_part, make_id, random_part};
use crate::invoice;
use crate::json;
use crate::json::quoted;
use crate::ledger;
use crate::ledger::{
    entries_view, law_debit_and_credit_balance, sums_fit, total, Entry, EntryView, PostingView,
};
use crate::store::{plan_view, Reply, Statement, StatementView};
use crate::text::{occurs, occurs_at, opt_view, signed_decimal, signed_text};
use crate::webhook;
use crate::webhook::DeliveryView;
use vstd::prelude::*;

verus! {

/// Ledger account that funds land in once a charge is confirmed paid.
pub const MERCHANT_RECEIVABLE: &'static str = "merchant:receivable";

/// Contra account representing the customer's obligation.
pub const CUSTOMER_CLEARING: &'static str = "customer:clearing";

/// A request to create a charge.
#[derive(Debug)]
pub struct CreateCharge {
    pub order_id: String,
    pub amount_minor: i64,
    pub currency: String,
    pub customer_name: Option<String>,
    pub customer_msisdn: Option<String>,
    pub callback_url: Option<String>,
}

/// The currency of a request that names none.
pub fn default_currency() -> (s: String)
    ensures
        s@ == "BDT"@,
{
    "BDT".to_owned()
}

/// A charge to be inserted; it starts out pending.
#[derive(Debug)]
pub struct NewCharge {
    pub id: String,
    pub order_id: String,
    pub amount_minor: i64,
    pub currency: String,
    pub customer_name: Option<String>,
    pub customer_msisdn: Option<String>,
    pub customer_email: Option<String>,
    pub callback_url: Option<String>,
    pub webhook_url: Option<String>,
    pub return_url: Option<String>,
    pub metadata: Option<String>,
    pub pay_ref: Option<String>,
}

/// The view of a [`NewCharge`].
#[verifier::ext_equal]
pub struct NewChargeView {
    pub id: Seq<char>,
    pub order_id: Seq<char>,
    pub amount_minor: int,
    pub currency: Seq<char>,
    pub customer_name: Option<Seq<char>>,
    pub customer_msisdn: Option<Seq<char>>,
    pub customer_email: Option<Seq<char>>,
    pub callback_url: Option<Seq<char>>,
    pub webhook_url: Option<Seq<char>>,
    pub return_url: Option<Seq<char>>,
    pub metadata: Option<Seq<char>>,
    pub pay_ref: Option<Seq<char>>,
}

impl View for NewCharge {
    type V = NewChargeView;

    open spec fn view(&self) -> NewChargeView {
        NewChargeView {
            id: self.id@,
            order_id: self.order_id@,
            amount_minor: self.amount_minor as int,
            currency: self.currency@,
            customer_name: opt_view(self.customer_name),
            customer_msisdn: opt_view(self.customer_msisdn),
            customer_email: opt_view(self.customer_email),
            callback_url: opt_view(self.callback_url),
            webhook_url: opt_view(self.webhook_url),
            return_url: opt_view(self.return_url),
            metadata: opt_view(self.metadata),
            pay_ref: opt_view(self.pay_ref),
        }
    }
}

/// A charge as it is stored.
#[derive(Debug)]
pub struct Charge {
    pub id: String,
    pub order_id: String,
    pub amount_minor: i64,
    pub currency: String,
    pub customer_name: Option<String>,
    pub customer_msisdn: Option<String>,
    pub callback_url: Option<String>,
    pub status: String,
    pub created_at: String,
    pub updated_at: String,
}

/// What settling a charge reads of it.
#[verifier::ext_equal]
pub struct ChargeView {
    pub id: Seq<char>,
    pub order_id: Seq<char>,
    pub amount_minor: int,
    pub currency: Seq<char>,
    pub callback_url: Option<Seq<char>>,
}

impl View for Charge {
    type V = ChargeView;

    open spec fn view(&self) -> ChargeView {
        ChargeView {
            id: self.id@,
            order_id: self.order_id@,
            amount_minor: self.amount_minor as int,
            currency: self.currency@,
            callback_url: opt_view(self.callback_url),
        }
    }
}

/// Why a charge could not be created, found or settled.
#[derive(Debug)]
pub enum ChargeError {
    InvalidAmount,
    /// There is a charge for this order id already.
    DuplicateOrder(String),
    NotFound,
    /// The database failed, with this message.
    Db(String),
}

/// The view of a [`ChargeError`].
pub enum ChargeErrorView {
    InvalidAmount,
    DuplicateOrder(Seq<char>),
    NotFound,
    Db(Seq<char>),
}

impl View for ChargeError {
    type V = ChargeErrorView;

    open spec fn view(&self) -> ChargeErrorView {
        match self {
            ChargeError::InvalidAmount => ChargeErrorView::InvalidAmount,
            ChargeError::DuplicateOrder(order_id) => ChargeErrorView::DuplicateOrder(order_id@),
            ChargeError::NotFound => ChargeErrorView::NotFound,
            ChargeError::Db(message) => ChargeErrorView::Db(message@),
        }
    }
}

impl ChargeError {
    /// The message of this error.
    pub open spec fn message_text(self) -> Seq<char> {
        match self {
            ChargeError::InvalidAmount => "amount must be positive"@,
            ChargeError::DuplicateOrder(order_id) => "a charge already exists for order_id "@
                + order_id@,
            ChargeError::NotFound => "charge not found"@,
            ChargeError::Db(message) => message@,
        }
    }

    /// The message of this error.
    pub fn message(&self) -> (s: String)
        ensures
            s@ == self.message_text(),
    {
        match self {
            ChargeError::InvalidAmount => "amount must be positive".to_owned(),
            ChargeError::DuplicateOrder(order_id) => {
                let mut s = "a charge already exists for order_id ".to_owned();
                s.append(order_id.as_str());
                s
            },
            ChargeError::NotFound => "charge not found".to_owned(),
            ChargeError::Db(message) => message.clone(),
        }
    }
}

// ---- creating ----

/// The charge that a request asks for, with a given random part of its identifier.
pub open spec fn requested(req: CreateCharge, random: Seq<char>) -> NewChargeView {
    NewChargeView {
        id: "chg_"@ + random,
        order_id: req.order_id@,
        amount_minor: req.amount_minor as int,
        currency: req.currency@,
        customer_name: opt_view(req.customer_name),
        customer_msisdn: opt_view(req.customer_msisdn),
        customer_email: None,
        callback_url: opt_view(req.callback_url),
        webhook_url: None,
        return_url: None,
        metadata: None,
        pay_ref: None,
    }
}

/// The charge that a request asks for, with a given random part of its identifier. An amount
/// that is not positive is refused.
pub fn create_with(random: &str, req: CreateCharge) -> (r: Result<NewCharge, ChargeError>)
    ensures
        r is Ok <==> req.amount_minor > 0,
        r matches Ok(c) ==> c@ == requested(req, random@),
        r matches Err(e) ==> e is InvalidAmount,
{
    if req.amount_minor <= 0 {
        return Err(ChargeError::InvalidAmount);
    }
    Ok(
        NewCharge {
            id: make_id("chg_", random),
            order_id: req.order_id,
            amount_minor: req.amount_minor,
            currency: req.currency,
            customer_name: req.customer_name,
            customer_msisdn: req.customer_msisdn,
            customer_email: None,
            callback_url: req.callback_url,
            webhook_url: None,
            return_url: None,
            metadata: None,
            pay_ref: None,
        },
    )
}

/// The charge that a request asks for, under a fresh identifier.
pub fn create(req: CreateCharge) -> (r: Result<NewCharge, ChargeError>)
    ensures
        r is Ok <==> req.amount_minor > 0,
        r matches Ok(c) ==> exists|random: Seq<char>|
            is_random_part(random) && c@ == #[trigger] requested(req, random),
        r matches Err(e) ==> e is InvalidAmount,
{
    let random = random_part();
    create_with(random.as_str(), req)
}

/// What inserting a charge came to. An order id that is taken is told apart from any other
/// failure.
pub fn created(order_id: String, reply: Reply) -> (r: Result<(), ChargeError>)
    ensures
        r is Ok <==> reply is Done,
        reply is Duplicate ==> r == Err::<(), ChargeError>(ChargeError::DuplicateOrder(order_id)),
        reply matches Reply::Failed { message } ==> r == Err::<(), ChargeError>(
            ChargeError::Db(message),
        ),
{
    match reply {
        Reply::Done { .. } => Ok(()),
        Reply::Duplicate => Err(ChargeError::DuplicateOrder(order_id)),
        Reply::Failed { message } => Err(ChargeError::Db(message)),
    }
}

/// The charge that a look-up found.
pub fn get(row: Option<Charge>) -> (r: Result<Charge, ChargeError>)
    ensures
        row matches Some(c) ==> r == Ok::<Charge, ChargeError>(c),
        row is None ==> r == Err::<Charge, ChargeError>(ChargeError::NotFound),
{
    match row {
        Some(c) => Ok(c),
        None => Err(ChargeError::NotFound),
    }
}

// ---- settling ----

/// The memo of the transaction that settles a charge.
pub open spec fn memo_text(c: ChargeView) -> Seq<char> {
    "charge "@ + c.id + " settled for order "@ + c.order_id
}

/// The transaction that settles a charge: the merchant's account is debited and the
/// customer's is credited.
pub open spec fn settling_posting(c: ChargeView, random: Seq<char>) -> PostingView {
    PostingView {
        txn_id: "ltx_"@ + random,
        reference: c.id,
        memo: memo_text(c),
        entries: seq![
            EntryView {
                account: MERCHANT_RECEIVABLE@,
                amount_minor: c.amount_minor,
                currency: c.currency,
            },
            EntryView {
                account: CUSTOMER_CLEARING@,
                amount_minor: -c.amount_minor,
                currency: c.currency,
            },
        ],
    }
}

/// What the merchant is told of a settled charge, with given literals of its three texts.
pub open spec fn payload_text(
    amount: int,
    id: Seq<char>,
    currency: Seq<char>,
    order_id: Seq<char>,
) -> Seq<char> {
    "{\"amount_minor\":"@ + signed_decimal(amount) + ",\"charge_id\":"@ + id + ",\"currency\":"@
        + currency + ",\"event\":\"charge.paid\",\"order_id\":"@ + order_id
        + ",\"status\":\"paid\"}"@
}

/// What the merchant is told of a settled charge.
pub open spec fn paid_payload(c: ChargeView) -> Seq<char> {
    payload_text(c.amount_minor, quoted(c.id), quoted(c.currency), quoted(c.order_id))
}

/// The statements that settle a charge, in order. The merchant is notified only if they
/// registered a callback.
pub open spec fn settlement(c: ChargeView, ltx: Seq<char>, whd: Seq<char>) -> Seq<StatementView> {
    let written = seq![
        StatementView::PostLedger(settling_posting(c, ltx)),
        StatementView::MarkChargePaid { id: c.id },
        StatementView::SettleInvoices { charge_id: c.id },
    ];
    match c.callback_url {
        Some(url) => written.push(
            StatementView::EnqueueWebhook(
                DeliveryView {
                    id: "whd_"@ + whd,
                    charge_id: c.id,
                    url,
                    event: "charge.paid"@,
                    payload: paid_payload(c),
                },
            ),
        ),
        None => written,
    }
}

/// What the merchant is told of a settled charge, with given literals of its three texts.
pub fn payload_with(amount_minor: i64, id: &str, currency: &str, order_id: &str) -> (s: String)
    ensures
        s@ == payload_text(amount_minor as int, id@, currency@, order_id@),
{
    let mut s = "{\"amount_minor\":".to_owned();
    let amount = signed_text(amount_minor);
    s.append(amount.as_str());
    s.append(",\"charge_id\":");
    s.append(id);
    s.append(",\"currency\":");
    s.append(currency);
    s.append(",\"event\":\"charge.paid\",\"order_id\":");
    s.append(order_id);
    s.append(",\"status\":\"paid\"}");
    s
}

/// What the merchant is told of a settled charge.
fn payload_of(charge: &Charge) -> (s: String)
    ensures
        s@ == paid_payload(charge@),
{
    let id = json::quote(charge.id.as_str());
    let currency = json::quote(charge.currency.as_str());
    let order_id = json::quote(charge.order_id.as_str());
    payload_with(charge.amount_minor, id.as_str(), currency.as_str(), order_id.as_str())
}

/// The statements that settle a confirmed charge, with given random parts of the two
/// identifiers: post the balanced ledger transaction, flip the status to paid, settle the
/// invoices that wait on the charge, and queue the merchant's webhook. The transaction always
/// balances, so that this does not fail.
pub fn mark_paid_with(ltx: &str, whd: &str, charge: &Charge) -> (r: Result<
    Vec<Statement>,
    ChargeError,
>)
    requires
        charge.amount_minor > i64::MIN,
    ensures
        r is Ok,
        r matches Ok(plan) ==> plan_view(plan@) == settlement(charge@, ltx@, whd@),
{
    let txn_id = make_id("ltx_", ltx);
    let mut memo = "charge ".to_owned();
    memo.append(charge.id.as_str());
    memo.append(" settled for order ");
    memo.append(charge.order_id.as_str());
    let mut entries: Vec<Entry> = Vec::new();
    entries.push(
        Entry::debit(MERCHANT_RECEIVABLE, charge.amount_minor, charge.currency.as_str()),
    );
    entries.push(
        Entry::credit(CUSTOMER_CLEARING, charge.amount_minor, charge.currency.as_str()),
    );
    let ghost two = settling_posting(charge@, ltx@).entries;
    proof {
        assert(entries_view(entries@) =~= two);
        lemma_two_entries(two, charge.amount_minor as int);
        law_debit_and_credit_balance(
            MERCHANT_RECEIVABLE@,
            CUSTOMER_CLEARING@,
            charge.amount_minor as int,
            charge.currency@,
        );
    }
    let posting = match ledger::post(
        txn_id.as_str(),
        charge.id.as_str(),
        memo.as_str(),
        entries,
    ) {
        Ok(p) => p,
        Err(e) => {
            return Err(ChargeError::Db(e.message()));
        },
    };
    assert(posting@ =~= settling_posting(charge@, ltx@));
    let mut plan: Vec<Statement> = Vec::new();
    plan.push(Statement::PostLedger(posting));
    plan.push(Statement::MarkChargePaid { id: charge.id.clone() });
    plan.push(invoice::settle_for_charge(charge.id.as_str()));
    match &charge.callback_url {
        Some(url) => {
            let payload = payload_of(charge);
            plan.push(
                Statement::EnqueueWebhook(
                    webhook::enqueue_with(
                        whd,
                        charge.id.as_str(),
                        url.as_str(),
                        "charge.paid",
                        payload.as_str(),
                    ),
                ),
            );
        },
        None => {},
    }
    assert(plan_view(plan@) =~= settlement(charge@, ltx@, whd@));
    Ok(plan)
}

/// The running sums of a debit and the credit that mirrors it.
proof fn lemma_two_entries(two: Seq<EntryView>, amount: int)
    requires
        two.len() == 2,
        two[0].amount_minor == amount,
        two[1].amount_minor == -amount,
        i64::MIN < amount <= i64::MAX,
    ensures
        sums_fit(two),
{
    reveal_with_fuel(total, 3);
    assert forall|k: int| 0 <= k <= two.len() implies i64::MIN <= #[trigger] total(two.take(k))
        <= i64::MAX by {
        if k == 0 {
            assert(two.take(0) =~= Seq::<EntryView>::empty());
        } else if k == 1 {
            assert(two.take(1).drop_last() =~= Seq::<EntryView>::empty());
        } else {
            assert(two.take(2).drop_last() =~= two.take(1));
            assert(two.take(1).drop_last() =~= Seq::<EntryView>::empty());
        }
    }
}

/// The statements that settle a confirmed charge, under fresh identifiers.
pub fn mark_paid(charge: &Charge) -> (r: Result<Vec<Statement>, ChargeError>)
    requires
        charge.amount_minor > i64::MIN,
    ensures
        r is Ok,
        r matches Ok(plan) ==> exists|ltx: Seq<char>, whd: Seq<char>|
            is_random_part(ltx) && is_random_part(whd) && plan_view(plan@) == #[trigger] settlement(
                charge@,
                ltx,
                whd,
            ),
{
    let ltx = random_part();
    let whd = random_part();
    mark_paid_with(ltx.as_str(), whd.as_str(), charge)
}

/// What carrying out one statement of a settlement came to.
pub fn settled(reply: Reply) -> (r: Result<(), ChargeError>)
    ensures
        r is Ok <==> reply is Done,
        reply matches Reply::Failed { message } ==> r == Err::<(), ChargeError>(
            ChargeError::Db(message),
        ),
        reply is Duplicate ==> (r matches Err(ChargeError::Db(m)) && m@ == "unique violation"@),
{
    match reply {
        Reply::Done { .. } => Ok(()),
        Reply::Duplicate => Err(ChargeError::Db("unique violation".to_owned())),
        Reply::Failed { message } => Err(ChargeError::Db(message)),
    }
}

// ---- laws ----

/// A charge is created as it was asked for.
pub proof fn law_charge_is_what_was_asked(req: CreateCharge, random: Seq<char>)
    ensures
        ({
            let c = requested(req, random);
            &&& c.id == "chg_"@ + random
            &&& c.order_id == req.order_id@
            &&& c.amount_minor == req.amount_minor
            &&& c.currency == req.currency@
            &&& c.customer_name == opt_view(req.customer_name)
            &&& c.customer_msisdn == opt_view(req.customer_msisdn)
            &&& c.callback_url == opt_view(req.callback_url)
            &&& c.pay_ref is None
            &&& c.customer_email is None && c.webhook_url is None && c.return_url is None
            &&& c.metadata is None
        }),
{
}

/// Settling a charge moves its amount, in its currency, from the customer's account to the
/// merchant's, and to no other, in a transaction that names the charge.
pub proof fn law_settling_moves_the_amount(c: ChargeView, random: Seq<char>)
    ensures
        ({
            let p = settling_posting(c, random);
            &&& ledger::balance(p.entries, "merchant:receivable"@) == c.amount_minor
            &&& ledger::balance(p.entries, "customer:clearing"@) == -c.amount_minor
            &&& total(p.entries) == 0
            &&& p.entries.len() == 2
            &&& forall|i: int|
                0 <= i < p.entries.len() ==> (#[trigger] p.entries[i]).currency == c.currency
            &&& p.reference == c.id
            &&& p.txn_id == "ltx_"@ + random
            &&& occurs(p.memo, c.id) && occurs(p.memo, c.order_id)
        }),
{
    let p = settling_posting(c, random);
    let e = p.entries;
    reveal_strlit("merchant:receivable");
    reveal_strlit("customer:clearing");
    assert("merchant:receivable"@.len() != "customer:clearing"@.len());
    reveal_with_fuel(ledger::balance, 3);
    reveal_with_fuel(total, 3);
    assert(e.drop_last() =~= seq![e[0]]);
    assert(seq![e[0]].drop_last() =~= Seq::<EntryView>::empty());
    let front = "charge "@;
    let middle = " settled for order "@;
    let i = front.len() as int;
    assert(p.memo.subrange(i, i + c.id.len()) =~= c.id);
    assert(occurs_at(p.memo, c.id, i));
    let j: int = (front.len() + c.id.len() + middle.len()) as int;
    assert(p.memo.subrange(j, j + c.order_id.len()) =~= c.order_id);
    assert(occurs_at(p.memo, c.order_id, j));
}

/// A settlement writes the ledger, marks the charge paid and settles its invoices, once each
/// and in this order; and it notifies the merchant exactly if there is a callback.
pub proof fn law_settlement_does_all_of_it(c: ChargeView, ltx: Seq<char>, whd: Seq<char>)
    ensures
        ({
            let plan = settlement(c, ltx, whd);
            &&& plan[0] == StatementView::PostLedger(settling_posting(c, ltx))
            &&& plan[1] == (StatementView::MarkChargePaid { id: c.id })
            &&& plan[2] == (StatementView::SettleInvoices { charge_id: c.id })
            &&& c.callback_url is None ==> plan.len() == 3
            &&& c.callback_url matches Some(url) ==> {
                &&& plan.len() == 4
                &&& plan[3] matches StatementView::EnqueueWebhook(d)
                &&& d.id == "whd_"@ + whd
                &&& d.charge_id == c.id
                &&& d.url == url
                &&& d.event == "charge.paid"@
                &&& d.payload == paid_payload(c)
            }
        }),
{
}

/// What the merchant is told names the charge, its order, its amount and its currency, and
/// says that it is paid.
pub proof fn law_payload_tells_the_charge(c: ChargeView)
    ensures
        ({
            let p = paid_payload(c);
            &&& occurs(p, "\"amount_minor\":"@ + signed_decimal(c.amount_minor) + ",\"charge_id\":"@)
            &&& occurs(p, ",\"charge_id\":"@ + quoted(c.id) + ",\"currency\":"@)
            &&& occurs(p, ",\"currency\":"@ + quoted(c.currency) + ",\"event\":\"charge.paid\""@)
            &&& occurs(p, "\"order_id\":"@ + quoted(c.order_id) + ",\"status\":\"paid\"}"@)
        }),
{
    let p = paid_payload(c);
    let amount = signed_decimal(c.amount_minor);
    let id = quoted(c.id);
    let currency = quoted(c.currency);
    let order = quoted(c.order_id);
    reveal_strlit("{\"amount_minor\":");
    reveal_strlit("\"amount_minor\":");
    reveal_strlit(",\"charge_id\":");
    reveal_strlit(",\"currency\":");
    reveal_strlit(",\"event\":\"charge.paid\"");
    reveal_strlit(",\"event\":\"charge.paid\",\"order_id\":");
    reveal_strlit("\"order_id\":");
    reveal_strlit(",\"status\":\"paid\"}");
    let t0 = "\"amount_minor\":"@ + amount + ",\"charge_id\":"@;
    assert(p.subrange(1, 1int + t0.len()) =~= t0);
    assert(occurs_at(p, t0, 1));
    let i1: int = ("{\"amount_minor\":"@.len() + amount.len()) as int;
    let t1 = ",\"charge_id\":"@ + id + ",\"currency\":"@;
    assert(p.subrange(i1, i1 + t1.len()) =~= t1);
    assert(occurs_at(p, t1, i1));
    let i2 = i1 + ",\"charge_id\":"@.len() + id.len();
    let t2 = ",\"currency\":"@ + currency + ",\"event\":\"charge.paid\""@;
    assert(p.subrange(i2, i2 + t2.len()) =~= t2);
    assert(occurs_at(p, t2, i2));
    let i3 = i2 + ",\"currency\":"@.len() + currency.len() + ",\"event\":\"charge.paid\","@.len();
    reveal_strlit(",\"event\":\"charge.paid\",");
    let t3 = "\"order_id\":"@ + order + ",\"status\":\"paid\"}"@;
    assert(p.subrange(i3, i3 + t3.len()) =~= t3);
    assert(occurs_at(p, t3, i3));
}

/// The message of a refused duplicate names the order, that of a failed database is its own,
/// and the others are fixed.
pub proof fn law_what_errors_say(order_id: String, message: String)
    ensures
        ChargeError::InvalidAmount.message_text() == "amount must be positive"@,
        ChargeError::DuplicateOrder(order_id).message_text()
            == "a charge already exists for order_id "@ + order_id@,
        ChargeError::NotFound.message_text() == "charge not found"@,
        ChargeError::Db(message).message_text() == message@,
{
}

} // verus!

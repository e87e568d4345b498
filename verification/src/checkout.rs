//! Hosted checkout: the customer-facing payment flow.
//!
//! A merchant creates a checkout and gets back a public reference and a hosted URL. The
//! customer opens that page, picks a service, sends money to the merchant's registered
//! number, and the page polls until the SMS forwarder settles the charge. A manual
//! transaction id is a hint only: SMS remains the single source of truth for settlement.

use crate::charge::{NewCharge, NewChargeView};
use crate::crypto::is_hex;
use crate::domain::{allowed, host, is_allowed, law_listed_hosts_pass};
use crate::ids::{is_random_part, make_id, random_part};
use crate::json;
use crate::json::compact;
use crate::money::{amount_text, format_minor};
use crate::store::{Reply, Statement, StatementView};
use crate::text::{
    chars_of, clone_opt, opt_str_view, opt_view, own_opt, string_of, texts_view,
};
use vstd::prelude::*;

verus! {

/// A request to open a checkout.
#[derive(Debug)]
pub struct CreateCheckout {
    pub full_name: Option<String>,
    pub email_address: Option<String>,
    pub mobile_number: Option<String>,
    /// The amount in minor units; none where what was asked for is not a finite number
    /// above zero.
    pub amount: Option<i64>,
    pub currency: String,
    pub return_url: Option<String>,
    pub webhook_url: Option<String>,
    /// The merchant's own JSON document, echoed back on verify; `null` where there is none.
    pub metadata: String,
}

/// The currency of a request that names none.
pub fn default_currency() -> (s: String)
    ensures
        s@ == "BDT"@,
{
    "BDT".to_owned()
}

/// Where the customer pays.
#[derive(Debug)]
pub struct CheckoutCreated {
    pub sap_id: String,
    pub sap_url: String,
}

/// Why a checkout could not be opened or found.
#[derive(Debug)]
pub enum CheckoutError {
    InvalidAmount,
    NotFound,
    DomainNotAllowed,
    /// The database failed, with this message.
    Db(String),
}

impl CheckoutError {
    /// The message of this error.
    pub open spec fn message_text(self) -> Seq<char> {
        match self {
            CheckoutError::InvalidAmount => "amount must be positive"@,
            CheckoutError::NotFound => "checkout not found"@,
            CheckoutError::DomainNotAllowed => "return_url or webhook_url host is not whitelisted"@,
            CheckoutError::Db(message) => message@,
        }
    }

    /// The message of this error.
    pub fn message(&self) -> (s: String)
        ensures
            s@ == self.message_text(),
    {
        match self {
            CheckoutError::InvalidAmount => "amount must be positive".to_owned(),
            CheckoutError::NotFound => "checkout not found".to_owned(),
            CheckoutError::DomainNotAllowed => {
                "return_url or webhook_url host is not whitelisted".to_owned()
            },
            CheckoutError::Db(message) => message.clone(),
        }
    }
}

/// Public, non-sensitive view that the checkout page renders. It has no room for secrets or
/// the webhook URL.
#[derive(Debug)]
pub struct PublicCharge {
    pub pay_ref: String,
    pub amount_minor: i64,
    pub currency: String,
    pub status: String,
    pub gateway: Option<String>,
    pub return_url: Option<String>,
    /// Registered receiving numbers.
    pub receivers: Vec<Receiver>,
}

/// A number that the merchant receives money on.
#[derive(Debug)]
pub struct Receiver {
    pub gateway: String,
    pub label: Option<String>,
    pub account_msisdn: Option<String>,
}

// ---- opening ----

/// `s` without the slashes at its end.
pub open spec fn without_slashes(s: Seq<char>) -> Seq<char>
    decreases s.len(),
{
    if s.len() > 0 && s.last() == '/' {
        without_slashes(s.drop_last())
    } else {
        s
    }
}

/// `s` without the slashes at its end.
fn trim_slashes(s: &str) -> (r: String)
    ensures
        r@ == without_slashes(s@),
{
    let v = chars_of(s);
    let mut end: usize = v.len();
    assert(v@.take(end as int) =~= v@);
    while end > 0 && v[end - 1] == '/'
        invariant
            end <= v.len(),
            without_slashes(v@.take(end as int)) == without_slashes(v@),
        decreases end,
    {
        assert(v@.take(end as int).drop_last() =~= v@.take(end - 1));
        end = end - 1;
    }
    let r = string_of(&v, 0, end);
    assert(r@ =~= v@.take(end as int));
    r
}

/// The URL of the page where the charge with a public reference is paid.
pub open spec fn pay_url(base_url: Seq<char>, pay_ref: Seq<char>) -> Seq<char> {
    without_slashes(base_url) + "/pay/"@ + pay_ref
}

/// The charge of a checkout. Its public reference is its order id too, and the webhook URL
/// its callback, so that settlement notifies the merchant as it does for any charge.
pub open spec fn checkout_charge(
    req: CreateCheckout,
    id: Seq<char>,
    pay_ref: Seq<char>,
) -> NewChargeView {
    NewChargeView {
        id: "chg_"@ + id,
        order_id: "pay_"@ + pay_ref,
        amount_minor: req.amount.unwrap() as int,
        currency: req.currency@,
        customer_name: opt_view(req.full_name),
        customer_msisdn: opt_view(req.mobile_number),
        customer_email: opt_view(req.email_address),
        callback_url: opt_view(req.webhook_url),
        webhook_url: opt_view(req.webhook_url),
        return_url: opt_view(req.return_url),
        metadata: if req.metadata@ == "null"@ {
            None
        } else {
            Some(req.metadata@)
        },
        pay_ref: Some("pay_"@ + pay_ref),
    }
}

/// Whether both URLs of a request may be used.
pub open spec fn urls_allowed(domains: Seq<Seq<char>>, req: CreateCheckout) -> bool {
    allowed(domains, opt_view(req.return_url)) && allowed(domains, opt_view(req.webhook_url))
}

/// What is handed out when a checkout is opened: what the merchant is told, and the charge
/// to insert.
#[derive(Debug)]
pub struct OpenedCheckout {
    pub created: CheckoutCreated,
    pub charge: NewCharge,
}

/// What is handed out when a checkout is opened.
pub open spec fn is_opened(
    o: OpenedCheckout,
    base_url: Seq<char>,
    req: CreateCheckout,
    id: Seq<char>,
    pay_ref: Seq<char>,
) -> bool {
    &&& o.created.sap_id@ == "pay_"@ + pay_ref
    &&& o.created.sap_url@ == pay_url(base_url, "pay_"@ + pay_ref)
    &&& o.charge@ == checkout_charge(req, id, pay_ref)
}

/// Open a checkout, with given random parts of its two identifiers. An amount that is not
/// one is refused first, then a URL whose host is not whitelisted.
pub fn create_checkout_with(
    id: &str,
    pay_ref: &str,
    domains: &Vec<String>,
    base_url: &str,
    req: CreateCheckout,
) -> (r: Result<OpenedCheckout, CheckoutError>)
    ensures
        match r {
            Ok(o) => req.amount is Some && urls_allowed(texts_view(domains@), req) && is_opened(
                o,
                base_url@,
                req,
                id@,
                pay_ref@,
            ),
            Err(CheckoutError::InvalidAmount) => req.amount is None,
            Err(CheckoutError::DomainNotAllowed) => req.amount is Some && !urls_allowed(
                texts_view(domains@),
                req,
            ),
            Err(_) => false,
        },
{
    let amount_minor = match req.amount {
        Some(a) => a,
        None => {
            return Err(CheckoutError::InvalidAmount);
        },
    };
    if !is_allowed(domains, borrowed(&req.return_url)) || !is_allowed(
        domains,
        borrowed(&req.webhook_url),
    ) {
        return Err(CheckoutError::DomainNotAllowed);
    }
    let reference = make_id("pay_", pay_ref);
    let mut sap_url = trim_slashes(base_url);
    sap_url.append("/pay/");
    sap_url.append(reference.as_str());
    let metadata = if req.metadata.as_str().eq("null") {
        None
    } else {
        Some(req.metadata)
    };
    let charge = NewCharge {
        id: make_id("chg_", id),
        order_id: reference.clone(),
        amount_minor,
        currency: req.currency,
        customer_name: req.full_name,
        customer_msisdn: req.mobile_number,
        customer_email: req.email_address,
        callback_url: clone_opt(&req.webhook_url),
        webhook_url: req.webhook_url,
        return_url: req.return_url,
        metadata,
        pay_ref: Some(reference.clone()),
    };
    Ok(OpenedCheckout { created: CheckoutCreated { sap_id: reference, sap_url }, charge })
}

/// An optional text, borrowed.
fn borrowed(s: &Option<String>) -> (r: Option<&str>)
    ensures
        opt_str_view(r) == opt_view(*s),
{
    match s {
        Some(t) => Some(t.as_str()),
        None => None,
    }
}

/// Open a checkout under fresh identifiers.
pub fn create_checkout(domains: &Vec<String>, base_url: &str, req: CreateCheckout) -> (r: Result<
    OpenedCheckout,
    CheckoutError,
>)
    ensures
        match r {
            Ok(o) => req.amount is Some && urls_allowed(texts_view(domains@), req) && exists|
                id: Seq<char>,
                pay_ref: Seq<char>,
            |
                is_random_part(id) && is_random_part(pay_ref) && #[trigger] is_opened(
                    o,
                    base_url@,
                    req,
                    id,
                    pay_ref,
                ),
            Err(CheckoutError::InvalidAmount) => req.amount is None,
            Err(CheckoutError::DomainNotAllowed) => req.amount is Some && !urls_allowed(
                texts_view(domains@),
                req,
            ),
            Err(_) => false,
        },
{
    let id = random_part();
    let pay_ref = random_part();
    create_checkout_with(id.as_str(), pay_ref.as_str(), domains, base_url, req)
}

/// What inserting the charge of a checkout came to.
pub fn opened(reply: Reply) -> (r: Result<(), CheckoutError>)
    ensures
        r is Ok <==> reply is Done,
        reply matches Reply::Failed { message } ==> r == Err::<(), CheckoutError>(
            CheckoutError::Db(message),
        ),
        reply is Duplicate ==> (r matches Err(CheckoutError::Db(m)) && m@ == "unique violation"@),
{
    match reply {
        Reply::Done { .. } => Ok(()),
        Reply::Duplicate => Err(CheckoutError::Db("unique violation".to_owned())),
        Reply::Failed { message } => Err(CheckoutError::Db(message)),
    }
}

// ---- the public view ----

/// What the public view reads of a charge.
#[derive(Debug)]
pub struct PublicRow {
    pub amount_minor: i64,
    pub currency: String,
    pub status: String,
    pub gateway: Option<String>,
    pub return_url: Option<String>,
}

/// The public view for the checkout page, with the merchant's registered receivers.
pub fn get_public_charge(pay_ref: &str, row: Option<PublicRow>, receivers: Vec<Receiver>) -> (r:
    Result<PublicCharge, CheckoutError>)
    ensures
        row is None ==> r == Err::<PublicCharge, CheckoutError>(CheckoutError::NotFound),
        row matches Some(c) ==> r matches Ok(p) && p.pay_ref@ == pay_ref@ && p.amount_minor
            == c.amount_minor && p.currency == c.currency && p.status == c.status && p.gateway
            == c.gateway && p.return_url == c.return_url && p.receivers == receivers,
{
    match row {
        Some(c) => Ok(
            PublicCharge {
                pay_ref: pay_ref.to_owned(),
                amount_minor: c.amount_minor,
                currency: c.currency,
                status: c.status,
                gateway: c.gateway,
                return_url: c.return_url,
                receivers,
            },
        ),
        None => Err(CheckoutError::NotFound),
    }
}

// ---- what the customer may change ----

/// Record which service the customer chose. It is for display only: settlement goes by the
/// amount.
pub fn select_gateway(pay_ref: &str, gateway: &str) -> (s: Statement)
    ensures
        s@ == (StatementView::SelectGateway { pay_ref: pay_ref@, gateway: gateway@ }),
{
    Statement::SelectGateway { pay_ref: pay_ref.to_owned(), gateway: gateway.to_owned() }
}

/// Keep a transaction id that the customer entered as a hint for reconciliation. It does not
/// settle the charge: customers must never be able to mark themselves paid.
pub fn submit_manual(pay_ref: &str, trx_id: &str, sender: Option<&str>) -> (s: Statement)
    ensures
        s@ == (StatementView::ClaimTransaction {
            pay_ref: pay_ref@,
            trx_id: trx_id@,
            sender: opt_str_view(sender),
        }),
{
    Statement::ClaimTransaction {
        pay_ref: pay_ref.to_owned(),
        trx_id: trx_id.to_owned(),
        sender: own_opt(sender),
    }
}

/// What changing a pending charge came to: without one that was touched, there is none.
pub fn changed(reply: Reply) -> (r: Result<(), CheckoutError>)
    ensures
        reply matches Reply::Done { rows } ==> r == if rows == 0 {
            Err::<(), CheckoutError>(CheckoutError::NotFound)
        } else {
            Ok::<(), CheckoutError>(())
        },
        reply matches Reply::Failed { message } ==> r == Err::<(), CheckoutError>(
            CheckoutError::Db(message),
        ),
        reply is Duplicate ==> (r matches Err(CheckoutError::Db(m)) && m@ == "unique violation"@),
{
    match reply {
        Reply::Done { rows } => {
            if rows == 0 {
                Err(CheckoutError::NotFound)
            } else {
                Ok(())
            }
        },
        Reply::Duplicate => Err(CheckoutError::Db("unique violation".to_owned())),
        Reply::Failed { message } => Err(CheckoutError::Db(message)),
    }
}

// ---- verifying ----

/// What the merchant is told of a payment.
#[derive(Debug)]
pub struct VerifyResult {
    pub sap_id: String,
    pub full_name: Option<String>,
    pub email_address: Option<String>,
    pub mobile_number: Option<String>,
    pub gateway: Option<String>,
    pub amount: String,
    pub currency: String,
    pub transaction_id: Option<String>,
    pub sender: Option<String>,
    /// A JSON document.
    pub metadata: String,
    /// Public payment status: `pending` until settled, then `completed`.
    pub status: String,
    pub date: String,
}

/// What verifying reads of a charge.
#[derive(Debug)]
pub struct CheckoutRow {
    pub id: String,
    pub pay_ref: Option<String>,
    pub amount_minor: i64,
    pub currency: String,
    pub customer_name: Option<String>,
    pub customer_email: Option<String>,
    pub customer_msisdn: Option<String>,
    pub gateway: Option<String>,
    pub metadata: Option<String>,
    pub claimed_trx_id: Option<String>,
    pub claimed_sender: Option<String>,
    pub status: String,
    pub created_at: String,
}

/// The public name of a charge's status.
pub open spec fn public_status(status: Seq<char>) -> Seq<char> {
    if status == "paid"@ {
        "completed"@
    } else {
        status
    }
}

/// The merchant's document as it was stored; none where none was, or what was stored is not
/// one.
pub open spec fn document_of(c: CheckoutRow) -> Option<Seq<char>> {
    match c.metadata {
        Some(m) => compact(m@),
        None => None,
    }
}

/// Whether `v` is what the merchant is told of the charge `c`, settled by the transaction
/// `settled_trx` if by any, with the merchant's document if there is one.
pub open spec fn reports(
    v: VerifyResult,
    c: CheckoutRow,
    settled_trx: Option<String>,
    document: Option<Seq<char>>,
) -> bool {
    &&& v.sap_id@ == match c.pay_ref {
        Some(p) => p@,
        None => seq![],
    }
    &&& v.full_name == c.customer_name
    &&& v.email_address == c.customer_email
    &&& v.mobile_number == c.customer_msisdn
    &&& v.gateway == c.gateway
    &&& v.amount@ == amount_text(c.amount_minor as int)
    &&& v.currency == c.currency
    &&& v.transaction_id == if settled_trx is Some {
        settled_trx
    } else {
        c.claimed_trx_id
    }
    &&& v.sender == c.claimed_sender
    &&& v.metadata@ == match document {
        Some(text) => text,
        None => "null"@,
    }
    &&& v.status@ == public_status(c.status@)
    &&& v.date == c.created_at
}

/// Tell the merchant of a payment, with the document to echo. The verified transaction id of
/// the settling SMS is preferred to a manual claim.
pub fn verify_with(c: CheckoutRow, settled_trx: Option<String>, document: Option<String>) -> (v:
    VerifyResult)
    ensures
        reports(v, c, settled_trx, opt_view(document)),
{
    let status = if c.status.as_str().eq("paid") {
        "completed".to_owned()
    } else {
        c.status
    };
    let sap_id = match c.pay_ref {
        Some(p) => p,
        None => String::new(),
    };
    let metadata = match document {
        Some(text) => text,
        None => "null".to_owned(),
    };
    let transaction_id = match settled_trx {
        Some(t) => Some(t),
        None => c.claimed_trx_id,
    };
    VerifyResult {
        sap_id,
        full_name: c.customer_name,
        email_address: c.customer_email,
        mobile_number: c.customer_msisdn,
        gateway: c.gateway,
        amount: format_minor(c.amount_minor),
        currency: c.currency,
        transaction_id,
        sender: c.claimed_sender,
        metadata,
        status,
        date: c.created_at,
    }
}

/// Tell the merchant of a payment.
pub fn verify(row: Option<CheckoutRow>, settled_trx: Option<String>) -> (r: Result<
    VerifyResult,
    CheckoutError,
>)
    ensures
        row is None ==> r == Err::<VerifyResult, CheckoutError>(CheckoutError::NotFound),
        row matches Some(c) ==> r matches Ok(v) && reports(v, c, settled_trx, document_of(c)),
{
    match row {
        Some(c) => {
            let document = match &c.metadata {
                Some(m) => json::rewrite(m.as_str()),
                None => None,
            };
            Ok(verify_with(c, settled_trx, document))
        },
        None => Err(CheckoutError::NotFound),
    }
}

// ---- laws ----

/// A merchant is told that a payment is completed exactly if its charge is paid. (The
/// database holds no other status of the name `completed`.)
pub proof fn law_completed_means_paid(status: Seq<char>)
    requires
        status != "completed"@,
    ensures
        public_status(status) == "completed"@ <==> status == "paid"@,
{
}

/// The merchant's document is echoed on verify as it was given, if it was written without
/// white space and with its keys in order; without one, `null` is.
pub proof fn law_document_is_echoed(
    req: CreateCheckout,
    id: Seq<char>,
    pay_ref: Seq<char>,
    c: CheckoutRow,
    settled_trx: Option<String>,
    v: VerifyResult,
)
    requires
        opt_view(c.metadata) == checkout_charge(req, id, pay_ref).metadata,
        compact(req.metadata@) == Some(req.metadata@),
        reports(v, c, settled_trx, document_of(c)),
    ensures
        v.metadata@ == req.metadata@,
{
}

/// The last segment of the page's URL is the public reference: what the merchant was given
/// as the identifier is what the customer's page asks for.
pub proof fn law_url_ends_with_reference(base_url: Seq<char>, random: Seq<char>)
    requires
        is_random_part(random),
    ensures
        ({
            let reference = "pay_"@ + random;
            let url = pay_url(base_url, reference);
            &&& url.skip(url.len() - reference.len()) == reference
            &&& url[url.len() - reference.len() - 1] == '/'
            &&& !reference.contains('/')
        }),
{
    let reference = "pay_"@ + random;
    let url = pay_url(base_url, reference);
    reveal_strlit("pay_");
    reveal_strlit("/pay/");
    assert(url.skip(url.len() - reference.len()) =~= reference);
    assert forall|i: int| 0 <= i < reference.len() implies reference[i] != '/' by {
        if i >= 4 {
            assert(is_hex(random[i - 4]));
            assert(reference[i] == random[i - 4]);
        }
    }
}

/// Slashes at the end of the base URL make no difference.
pub proof fn law_trailing_slashes_are_ignored(base_url: Seq<char>, pay_ref: Seq<char>)
    ensures
        pay_url(base_url.push('/'), pay_ref) == pay_url(base_url, pay_ref),
{
    assert(base_url.push('/').drop_last() =~= base_url);
}

/// The transaction that paid is the one that is reported: a claim of the customer is reported
/// only as long as no SMS settled the charge.
pub proof fn law_settling_transaction_is_reported(
    v: VerifyResult,
    c: CheckoutRow,
    settled_trx: Option<String>,
    document: Option<Seq<char>>,
)
    requires
        reports(v, c, settled_trx, document),
    ensures
        settled_trx matches Some(t) ==> v.transaction_id == Some(t),
        settled_trx is None ==> v.transaction_id == c.claimed_trx_id,
{
}

/// A claim never changes the transaction that is reported of a settled charge: two reports of
/// it agree, whatever the customer claimed in between.
pub proof fn law_claim_cannot_displace_settlement(
    v: VerifyResult,
    c: CheckoutRow,
    v2: VerifyResult,
    c2: CheckoutRow,
    settled_trx: Option<String>,
    document: Option<Seq<char>>,
    document2: Option<Seq<char>>,
)
    requires
        settled_trx is Some,
        reports(v, c, settled_trx, document),
        reports(v2, c2, settled_trx, document2),
    ensures
        v.transaction_id == v2.transaction_id,
{
}

/// A report tells of the charge what is stored of it: who pays, over what, how much, in which
/// currency and since when.
pub proof fn law_report_tells_the_charge(
    v: VerifyResult,
    c: CheckoutRow,
    settled_trx: Option<String>,
    document: Option<Seq<char>>,
)
    requires
        reports(v, c, settled_trx, document),
    ensures
        c.pay_ref matches Some(p) ==> v.sap_id@ == p@,
        v.full_name == c.customer_name,
        v.email_address == c.customer_email,
        v.mobile_number == c.customer_msisdn,
        v.gateway == c.gateway,
        v.currency == c.currency,
        v.sender == c.claimed_sender,
        v.date == c.created_at,
        v.amount@ == amount_text(c.amount_minor as int),
        c.status@ == "paid"@ ==> v.status@ == "completed"@,
        c.status@ != "paid"@ ==> v.status@ == c.status@,
        document matches Some(text) ==> v.metadata@ == text,
        document is None ==> v.metadata@ == "null"@,
{
}

/// Only a paid charge is renamed: every other status is told as it is.
pub proof fn law_other_statuses_are_told(status: Seq<char>)
    requires
        status != "paid"@,
    ensures
        public_status(status) == status,
{
}

/// The document that is echoed is the stored one, if it is one.
pub proof fn law_stored_document_is_read(c: CheckoutRow)
    ensures
        c.metadata matches Some(m) ==> document_of(c) == compact(m@),
        c.metadata is None ==> document_of(c) is None,
{
}

/// The page of a checkout is found under the base URL.
pub proof fn law_page_is_under_the_base(base_url: Seq<char>, pay_ref: Seq<char>)
    requires
        base_url.len() == 0 || base_url.last() != '/',
    ensures
        pay_url(base_url, pay_ref) == base_url + "/pay/"@ + pay_ref,
{
}

/// The charge of a checkout is for what was asked: the same amount, currency and customer. Its
/// public reference is its order id, the webhook is where its settlement is told, and the
/// merchant's document is kept unless it is `null`.
pub proof fn law_checkout_charges_what_was_asked(
    req: CreateCheckout,
    id: Seq<char>,
    pay_ref: Seq<char>,
)
    ensures
        ({
            let c = checkout_charge(req, id, pay_ref);
            &&& req.amount matches Some(a) ==> c.amount_minor == a
            &&& c.currency == req.currency@
            &&& c.customer_name == opt_view(req.full_name)
            &&& c.customer_msisdn == opt_view(req.mobile_number)
            &&& c.customer_email == opt_view(req.email_address)
            &&& c.return_url == opt_view(req.return_url)
            &&& c.webhook_url == opt_view(req.webhook_url)
            &&& c.callback_url == opt_view(req.webhook_url)
            &&& c.pay_ref == Some(c.order_id)
            &&& c.order_id == "pay_"@ + pay_ref
            &&& c.id == "chg_"@ + id
            &&& req.metadata@ == "null"@ ==> c.metadata is None
            &&& req.metadata@ != "null"@ ==> c.metadata == Some(req.metadata@)
        }),
{
}

/// What the merchant is told of an opened checkout is what its charge goes by.
pub proof fn law_merchant_is_told_the_reference(
    o: OpenedCheckout,
    base_url: Seq<char>,
    req: CreateCheckout,
    id: Seq<char>,
    pay_ref: Seq<char>,
)
    requires
        is_opened(o, base_url, req, id, pay_ref),
    ensures
        o.charge@.pay_ref == Some(o.created.sap_id@),
        o.created.sap_url@ == pay_url(base_url, o.created.sap_id@),
        o.charge@.return_url == opt_view(req.return_url),
        o.charge@.callback_url == opt_view(req.webhook_url),
        req.amount matches Some(a) ==> o.charge@.amount_minor == a,
        o.charge@.currency == req.currency@,
{
}

/// A checkout is opened only where both of its URLs lead to hosts that are listed, or nothing
/// is listed.
pub proof fn law_both_urls_must_be_listed(domains: Seq<Seq<char>>, req: CreateCheckout)
    requires
        domains.len() > 0,
    ensures
        urls_allowed(domains, req) <==> {
            &&& req.return_url matches Some(u) ==> exists|i: int|
                0 <= i < domains.len() && host(u@) == Some(#[trigger] domains[i])
            &&& req.webhook_url matches Some(u) ==> exists|i: int|
                0 <= i < domains.len() && host(u@) == Some(#[trigger] domains[i])
        },
{
    law_listed_hosts_pass(domains, opt_view(req.return_url));
    law_listed_hosts_pass(domains, opt_view(req.webhook_url));
}

/// The message of a failed database is its own, and the others are fixed.
pub proof fn law_what_errors_say(message: String)
    ensures
        CheckoutError::InvalidAmount.message_text() == "amount must be positive"@,
        CheckoutError::NotFound.message_text() == "checkout not found"@,
        CheckoutError::DomainNotAllowed.message_text()
            == "return_url or webhook_url host is not whitelisted"@,
        CheckoutError::Db(message).message_text() == message@,
{
}

} // verus!

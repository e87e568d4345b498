//! Invoices: itemized bills that collect through the hosted checkout.
//!
//! A merchant drafts an invoice with line items; they are summed into a single amount and, on
//! demand, a hosted checkout is opened to collect it, so that settlement stays SMS-driven.

use crate::checkout;
use crate::checkout::{is_opened, CheckoutCreated, CheckoutError, CreateCheckout};
use crate::ids::{is_random_part, make_id, random_part};
use crate::store::{plan_view, Reply, Statement, StatementView};
use crate::text::{chars_of, opt_view, string_of, texts_view};
use vstd::prelude::*;

verus! {

/// One line of an invoice.
#[derive(Debug)]
pub struct LineItem {
    pub description: String,
    pub quantity: i64,
    pub unit_minor: i64,
}

/// A request to draft an invoice.
#[derive(Debug)]
pub struct CreateInvoice {
    pub number: Option<String>,
    pub customer_id: Option<String>,
    pub currency: Option<String>,
    pub items: Vec<LineItem>,
}

/// An invoice as it is stored.
#[derive(Debug)]
pub struct Invoice {
    pub id: String,
    pub number: String,
    pub customer_id: Option<String>,
    pub amount_minor: i64,
    pub currency: String,
    pub status: String,
    pub charge_id: Option<String>,
    pub pay_ref: Option<String>,
    pub created_at: String,
    pub updated_at: String,
}

/// A line of an invoice to be inserted.
#[derive(Debug)]
pub struct NewItem {
    pub id: String,
    pub description: String,
    pub quantity: i64,
    pub unit_minor: i64,
}

/// The view of a [`NewItem`].
#[verifier::ext_equal]
pub struct NewItemView {
    pub id: Seq<char>,
    pub description: Seq<char>,
    pub quantity: int,
    pub unit_minor: int,
}

impl View for NewItem {
    type V = NewItemView;

    open spec fn view(&self) -> NewItemView {
        NewItemView {
            id: self.id@,
            description: self.description@,
            quantity: self.quantity as int,
            unit_minor: self.unit_minor as int,
        }
    }
}

/// An invoice to be inserted; it starts out unpaid.
#[derive(Debug)]
pub struct NewInvoice {
    pub id: String,
    pub number: String,
    pub customer_id: Option<String>,
    pub amount_minor: i64,
    pub currency: String,
    pub items: Vec<NewItem>,
}

/// The view of a [`NewInvoice`].
#[verifier::ext_equal]
pub struct NewInvoiceView {
    pub id: Seq<char>,
    pub number: Seq<char>,
    pub customer_id: Option<Seq<char>>,
    pub amount_minor: int,
    pub currency: Seq<char>,
    pub items: Seq<NewItemView>,
}

impl View for NewInvoice {
    type V = NewInvoiceView;

    open spec fn view(&self) -> NewInvoiceView {
        NewInvoiceView {
            id: self.id@,
            number: self.number@,
            customer_id: opt_view(self.customer_id),
            amount_minor: self.amount_minor as int,
            currency: self.currency@,
            items: self.items@.map_values(|i: NewItem| i@),
        }
    }
}

/// Why an invoice could not be drafted, found or collected.
#[derive(Debug)]
pub enum InvoiceError {
    InvalidAmount,
    NotFound,
    /// The database failed, with this message.
    Db(String),
}

impl InvoiceError {
    /// The message of this error.
    pub open spec fn message_text(self) -> Seq<char> {
        match self {
            InvoiceError::InvalidAmount => "invoice amount must be positive"@,
            InvoiceError::NotFound => "invoice not found"@,
            InvoiceError::Db(message) => message@,
        }
    }

    /// The message of this error.
    pub fn message(&self) -> (s: String)
        ensures
            s@ == self.message_text(),
    {
        match self {
            InvoiceError::InvalidAmount => "invoice amount must be positive".to_owned(),
            InvoiceError::NotFound => "invoice not found".to_owned(),
            InvoiceError::Db(message) => message.clone(),
        }
    }
}

/// What a checkout error means to an invoice. One surfaces here only when a payment is
/// issued.
pub open spec fn invoice_error(e: CheckoutError) -> InvoiceError {
    match e {
        CheckoutError::NotFound => InvoiceError::NotFound,
        CheckoutError::InvalidAmount => InvoiceError::InvalidAmount,
        CheckoutError::DomainNotAllowed => InvoiceError::InvalidAmount,
        CheckoutError::Db(message) => InvoiceError::Db(message),
    }
}

impl From<CheckoutError> for InvoiceError {
    fn from(e: CheckoutError) -> (r: Self) {
        match e {
            CheckoutError::NotFound => InvoiceError::NotFound,
            CheckoutError::InvalidAmount => InvoiceError::InvalidAmount,
            CheckoutError::DomainNotAllowed => InvoiceError::InvalidAmount,
            CheckoutError::Db(message) => InvoiceError::Db(message),
        }
    }
}

impl vstd::std_specs::convert::FromSpecImpl<CheckoutError> for InvoiceError {
    open spec fn obeys_from_spec() -> bool {
        true
    }

    open spec fn from_spec(e: CheckoutError) -> Self {
        invoice_error(e)
    }
}

// ---- drafting ----

/// What a line comes to.
pub open spec fn line_total(item: LineItem) -> int {
    item.quantity * item.unit_minor
}

/// What the lines come to.
pub open spec fn items_total(items: Seq<LineItem>) -> int
    decreases items.len(),
{
    if items.len() == 0 {
        0
    } else {
        items_total(items.drop_last()) + line_total(items.last())
    }
}

/// Whether neither a line nor the running sum of the lines leaves an `i64`.
pub open spec fn totals_fit(items: Seq<LineItem>) -> bool {
    &&& forall|k: int|
        0 <= k < items.len() ==> i64::MIN <= line_total(#[trigger] items[k]) <= i64::MAX
    &&& forall|k: int|
        0 <= k <= items.len() ==> i64::MIN <= #[trigger] items_total(items.take(k)) <= i64::MAX
}

/// What the lines come to; none where a line, or the running sum, leaves an `i64`.
pub fn total_of(items: &Vec<LineItem>) -> (r: Option<i64>)
    ensures
        r is Some <==> totals_fit(items@),
        r matches Some(n) ==> n == items_total(items@),
{
    let mut sum: i64 = 0;
    let mut i: usize = 0;
    assert(items@.take(0) =~= Seq::<LineItem>::empty());
    while i < items.len()
        invariant
            i <= items.len(),
            sum == items_total(items@.take(i as int)),
            forall|k: int|
                0 <= k < i ==> i64::MIN <= line_total(#[trigger] items@[k]) <= i64::MAX,
            forall|k: int|
                0 <= k <= i ==> i64::MIN <= #[trigger] items_total(items@.take(k)) <= i64::MAX,
        decreases items.len() - i,
    {
        assert(items@.take(i + 1).drop_last() =~= items@.take(i as int));
        let line = match items[i].quantity.checked_mul(items[i].unit_minor) {
            Some(n) => n,
            None => {
                assert(!(i64::MIN <= line_total(items@[i as int]) <= i64::MAX));
                return None;
            },
        };
        sum = match sum.checked_add(line) {
            Some(n) => n,
            None => {
                assert(!(i64::MIN <= items_total(items@.take(i + 1)) <= i64::MAX));
                return None;
            },
        };
        i = i + 1;
    }
    assert(items@.take(items@.len() as int) =~= items@);
    Some(sum)
}

/// The number of an invoice: the one that was asked for, or one made of the first eight
/// digits of its identifier.
pub open spec fn number_text(number: Option<Seq<char>>, random: Seq<char>) -> Seq<char> {
    match number {
        Some(n) => n,
        None => "INV-"@ + random.take(8),
    }
}

/// The invoice that a request asks for, with given random parts of its identifiers.
pub open spec fn drafted(
    req: CreateInvoice,
    random: Seq<char>,
    item_randoms: Seq<Seq<char>>,
) -> NewInvoiceView {
    NewInvoiceView {
        id: "inv_"@ + random,
        number: number_text(opt_view(req.number), random),
        customer_id: opt_view(req.customer_id),
        amount_minor: items_total(req.items@),
        currency: match req.currency {
            Some(c) => c@,
            None => "BDT"@,
        },
        items: Seq::new(
            req.items@.len(),
            |i: int|
                NewItemView {
                    id: "itm_"@ + item_randoms[i],
                    description: req.items@[i].description@,
                    quantity: req.items@[i].quantity as int,
                    unit_minor: req.items@[i].unit_minor as int,
                },
        ),
    }
}

/// Draft an invoice from its line items, with given random parts of its identifiers. The
/// amount is the summed total; zero or empty items are rejected.
pub fn create_with(random: &str, item_randoms: &Vec<String>, req: CreateInvoice) -> (r: Result<
    NewInvoice,
    InvoiceError,
>)
    requires
        totals_fit(req.items@),
        random@.len() >= 8,
        item_randoms@.len() == req.items@.len(),
    ensures
        r is Ok <==> items_total(req.items@) > 0,
        r matches Ok(i) ==> i@ == drafted(req, random@, texts_view(item_randoms@)),
        r matches Err(e) ==> e is InvalidAmount,
{
    let amount_minor = match total_of(&req.items) {
        Some(n) => n,
        None => {
            return Err(InvoiceError::InvalidAmount);
        },
    };
    if amount_minor <= 0 {
        return Err(InvoiceError::InvalidAmount);
    }
    let number = match req.number {
        Some(n) => n,
        None => {
            let v = chars_of(random);
            let head = string_of(&v, 0, 8);
            let mut s = "INV-".to_owned();
            s.append(head.as_str());
            assert(head@ =~= random@.take(8));
            s
        },
    };
    let currency = match req.currency {
        Some(c) => c,
        None => "BDT".to_owned(),
    };
    let mut items: Vec<NewItem> = Vec::new();
    let mut i: usize = 0;
    while i < req.items.len()
        invariant
            i <= req.items.len(),
            item_randoms@.len() == req.items@.len(),
            items.len() == i,
            forall|k: int|
                0 <= k < i ==> (#[trigger] items@[k])@ == (NewItemView {
                    id: "itm_"@ + texts_view(item_randoms@)[k],
                    description: req.items@[k].description@,
                    quantity: req.items@[k].quantity as int,
                    unit_minor: req.items@[k].unit_minor as int,
                }),
        decreases req.items.len() - i,
    {
        items.push(
            NewItem {
                id: make_id("itm_", item_randoms[i].as_str()),
                description: req.items[i].description.clone(),
                quantity: req.items[i].quantity,
                unit_minor: req.items[i].unit_minor,
            },
        );
        i = i + 1;
    }
    let made = NewInvoice {
        id: make_id("inv_", random),
        number,
        customer_id: req.customer_id,
        amount_minor,
        currency,
        items,
    };
    assert(made@ =~= drafted(req, random@, texts_view(item_randoms@)));
    Ok(made)
}

/// Draft an invoice from its line items, under fresh identifiers.
pub fn create(req: CreateInvoice) -> (r: Result<NewInvoice, InvoiceError>)
    requires
        totals_fit(req.items@),
    ensures
        r is Ok <==> items_total(req.items@) > 0,
        r matches Ok(i) ==> exists|random: Seq<char>, item_randoms: Seq<Seq<char>>|
            is_random_part(random) && item_randoms.len() == req.items@.len() && (forall|k: int|
                0 <= k < item_randoms.len() ==> is_random_part(#[trigger] item_randoms[k])) && i@
                == #[trigger] drafted(req, random, item_randoms),
        r matches Err(e) ==> e is InvalidAmount,
{
    let random = random_part();
    let mut item_randoms: Vec<String> = Vec::new();
    while item_randoms.len() < req.items.len()
        invariant
            item_randoms.len() <= req.items.len(),
            forall|k: int|
                0 <= k < item_randoms.len() ==> is_random_part(#[trigger] item_randoms@[k]@),
        decreases req.items.len() - item_randoms.len(),
    {
        item_randoms.push(random_part());
    }
    assert forall|k: int| 0 <= k < texts_view(item_randoms@).len() implies is_random_part(
        #[trigger] texts_view(item_randoms@)[k],
    ) by {
        assert(texts_view(item_randoms@)[k] == item_randoms@[k]@);
    }
    create_with(random.as_str(), &item_randoms, req)
}

// ---- collecting ----

/// What is handed out when a payment is issued: what the merchant is told, and the
/// statements that open the checkout and bind the invoice to it.
#[derive(Debug)]
pub struct IssuedPayment {
    pub created: CheckoutCreated,
    pub plan: Vec<Statement>,
}

/// The checkout that collects an invoice.
pub open spec fn collecting(invoice: Invoice, req: CreateCheckout) -> bool {
    &&& req.full_name is None
    &&& req.email_address is None
    &&& req.mobile_number is None
    &&& req.amount == Some(invoice.amount_minor)
    &&& req.currency@ == invoice.currency@
    &&& req.return_url is None
    &&& req.webhook_url is None
    &&& req.metadata@ == "null"@
}

/// Whether `p` opens a checkout for an invoice and binds the invoice to it.
pub open spec fn is_issued(
    p: IssuedPayment,
    base_url: Seq<char>,
    invoice: Invoice,
    id: Seq<char>,
    pay_ref: Seq<char>,
) -> bool {
    exists|o: checkout::OpenedCheckout, req: CreateCheckout|
        {
            &&& collecting(invoice, req)
            &&& #[trigger] is_opened(o, base_url, req, id, pay_ref)
            &&& p.created == o.created
            &&& plan_view(p.plan@) == seq![
                StatementView::InsertCharge(o.charge@),
                StatementView::BindInvoice {
                    id: invoice.id@,
                    pay_ref: o.created.sap_id@,
                    charge_id: o.charge@.id,
                },
            ]
        }
}

/// Open a hosted checkout to collect this invoice and record the linkage, with given random
/// parts of the two identifiers. Settlement goes by the identifier of the charge, so that
/// this is what the invoice is bound to. An invoice whose amount is not positive cannot be
/// collected.
pub fn issue_payment_with(id: &str, pay_ref: &str, invoice: Option<Invoice>, base_url: &str) -> (r:
    Result<IssuedPayment, InvoiceError>)
    ensures
        match invoice {
            None => r == Err::<IssuedPayment, InvoiceError>(InvoiceError::NotFound),
            Some(i) => if i.amount_minor > 0 {
                r matches Ok(p) && is_issued(p, base_url@, i, id@, pay_ref@)
            } else {
                r == Err::<IssuedPayment, InvoiceError>(InvoiceError::InvalidAmount)
            },
        },
{
    let invoice = match invoice {
        Some(i) => i,
        None => {
            return Err(InvoiceError::NotFound);
        },
    };
    let req = CreateCheckout {
        full_name: None,
        email_address: None,
        mobile_number: None,
        amount: if invoice.amount_minor > 0 {
            Some(invoice.amount_minor)
        } else {
            None
        },
        currency: invoice.currency.clone(),
        return_url: None,
        webhook_url: None,
        metadata: "null".to_owned(),
    };
    let ghost asked = req;
    let domains: Vec<String> = Vec::new();
    let opened = match checkout::create_checkout_with(id, pay_ref, &domains, base_url, req) {
        Ok(o) => o,
        Err(e) => {
            return Err(InvoiceError::from(e));
        },
    };
    let ghost o = opened;
    let bind = Statement::BindInvoice {
        id: invoice.id.clone(),
        pay_ref: opened.created.sap_id.clone(),
        charge_id: opened.charge.id.clone(),
    };
    let mut plan: Vec<Statement> = Vec::new();
    plan.push(Statement::InsertCharge(opened.charge));
    plan.push(bind);
    let p = IssuedPayment { created: opened.created, plan };
    assert(plan_view(p.plan@) =~= seq![
        StatementView::InsertCharge(o.charge@),
        StatementView::BindInvoice {
            id: invoice.id@,
            pay_ref: o.created.sap_id@,
            charge_id: o.charge@.id,
        },
    ]);
    assert(is_opened(o, base_url@, asked, id@, pay_ref@));
    Ok(p)
}

/// Open a hosted checkout to collect this invoice, under fresh identifiers.
pub fn issue_payment(invoice: Option<Invoice>, base_url: &str) -> (r: Result<
    IssuedPayment,
    InvoiceError,
>)
    ensures
        match invoice {
            None => r == Err::<IssuedPayment, InvoiceError>(InvoiceError::NotFound),
            Some(i) => if i.amount_minor > 0 {
                r matches Ok(p) && exists|id: Seq<char>, pay_ref: Seq<char>|
                    is_random_part(id) && is_random_part(pay_ref) && #[trigger] is_issued(
                        p,
                        base_url@,
                        i,
                        id,
                        pay_ref,
                    )
            } else {
                r == Err::<IssuedPayment, InvoiceError>(InvoiceError::InvalidAmount)
            },
        },
{
    let id = random_part();
    let pay_ref = random_part();
    issue_payment_with(id.as_str(), pay_ref.as_str(), invoice, base_url)
}

/// Mark any unpaid invoice bound to this charge as paid. Nothing changes when there is none.
pub fn settle_for_charge(charge_id: &str) -> (s: Statement)
    ensures
        s@ == (StatementView::SettleInvoices { charge_id: charge_id@ }),
{
    Statement::SettleInvoices { charge_id: charge_id.to_owned() }
}

/// What carrying out one statement on an invoice came to.
pub fn stored(reply: Reply) -> (r: Result<(), InvoiceError>)
    ensures
        r is Ok <==> reply is Done,
        reply matches Reply::Failed { message } ==> r == Err::<(), InvoiceError>(
            InvoiceError::Db(message),
        ),
        reply is Duplicate ==> (r matches Err(InvoiceError::Db(m)) && m@ == "unique violation"@),
{
    match reply {
        Reply::Done { .. } => Ok(()),
        Reply::Duplicate => Err(InvoiceError::Db("unique violation".to_owned())),
        Reply::Failed { message } => Err(InvoiceError::Db(message)),
    }
}

// ---- laws ----

/// A line adds its quantity times its price to the total.
pub proof fn law_line_adds_quantity_times_price(items: Seq<LineItem>, item: LineItem)
    ensures
        items_total(items.push(item)) == items_total(items) + item.quantity * item.unit_minor,
        items_total(Seq::empty()) == 0,
{
    assert(items.push(item).drop_last() =~= items);
}

/// Lines that are not negative can be summed as long as their total is an amount.
pub proof fn law_totals_that_fit(items: Seq<LineItem>)
    requires
        forall|k: int|
            0 <= k < items.len() ==> (#[trigger] items[k]).quantity * items[k].unit_minor >= 0,
        items_total(items) <= i64::MAX,
    ensures
        totals_fit(items),
{
    assert forall|k: int| 0 <= k <= items.len() implies 0 <= #[trigger] items_total(items.take(k))
        <= items_total(items) by {
        lemma_total_grows(items, k);
    }
    assert forall|k: int| 0 <= k < items.len() implies line_total(#[trigger] items[k])
        <= i64::MAX by {
        assert(items.take(k + 1).drop_last() =~= items.take(k));
        assert(0 <= items_total(items.take(k)) && items_total(items.take(k + 1)) <= items_total(
            items,
        ));
    }
}

/// The total of lines that are not negative grows.
proof fn lemma_total_grows(items: Seq<LineItem>, k: int)
    requires
        0 <= k <= items.len(),
        forall|k: int|
            0 <= k < items.len() ==> (#[trigger] items[k]).quantity * items[k].unit_minor >= 0,
    ensures
        0 <= items_total(items.take(k)) <= items_total(items),
    decreases items.len(),
{
    if items.len() == 0 {
        assert(items.take(k) =~= items);
    } else {
        let t = items.drop_last();
        assert(items[items.len() - 1].quantity * items[items.len() - 1].unit_minor >= 0);
        assert forall|i: int| 0 <= i < t.len() implies (#[trigger] t[i]).quantity * t[i].unit_minor
            >= 0 by {
            assert(t[i] == items[i]);
        }
        if k == items.len() {
            assert(items.take(k) =~= items);
            lemma_total_grows(t, 0);
        } else {
            lemma_total_grows(t, k);
            assert(t.take(k) =~= items.take(k));
        }
    }
}

/// An invoice bills its lines, each as it was given, for their total; it bears the number and
/// the currency that were asked for, and otherwise one of its own and the taka.
pub proof fn law_invoice_bills_its_lines(
    req: CreateInvoice,
    random: Seq<char>,
    item_randoms: Seq<Seq<char>>,
)
    ensures
        ({
            let i = drafted(req, random, item_randoms);
            &&& i.amount_minor == items_total(req.items@)
            &&& i.items.len() == req.items@.len()
            &&& forall|k: int|
                #![trigger i.items[k]]
                0 <= k < i.items.len() ==> {
                    &&& i.items[k].description == req.items@[k].description@
                    &&& i.items[k].quantity == req.items@[k].quantity
                    &&& i.items[k].unit_minor == req.items@[k].unit_minor
                    &&& i.items[k].id == "itm_"@ + item_randoms[k]
                }
            &&& i.id == "inv_"@ + random
            &&& i.customer_id == opt_view(req.customer_id)
            &&& req.number matches Some(n) ==> i.number == n@
            &&& req.number is None ==> i.number == "INV-"@ + random.take(8)
            &&& req.currency matches Some(c) ==> i.currency == c@
            &&& req.currency is None ==> i.currency == "BDT"@
        }),
{
}

/// Issuing a payment inserts a charge for the invoice's amount and currency, binds the invoice
/// to that very charge, and does nothing else; the merchant is told the charge's reference.
pub proof fn law_issuing_collects_the_invoice(
    p: IssuedPayment,
    base_url: Seq<char>,
    invoice: Invoice,
    id: Seq<char>,
    pay_ref: Seq<char>,
)
    requires
        is_issued(p, base_url, invoice, id, pay_ref),
    ensures
        plan_view(p.plan@).len() == 2,
        plan_view(p.plan@)[0] matches StatementView::InsertCharge(c) && {
            &&& c.amount_minor == invoice.amount_minor
            &&& c.currency == invoice.currency@
            &&& c.id == "chg_"@ + id
            &&& c.pay_ref == Some(p.created.sap_id@)
            &&& plan_view(p.plan@)[1] == (StatementView::BindInvoice {
                id: invoice.id@,
                pay_ref: p.created.sap_id@,
                charge_id: c.id,
            })
        },
        p.created.sap_id@ == "pay_"@ + pay_ref,
        p.created.sap_url@ == checkout::pay_url(base_url, p.created.sap_id@),
{
}

/// What a checkout error means to an invoice: a missing one stays missing, a failure of the
/// database stays one with its message, and anything else is an amount that cannot be
/// collected.
pub proof fn law_checkout_errors_carry_over(e: CheckoutError)
    ensures
        e is NotFound <==> invoice_error(e) is NotFound,
        e matches CheckoutError::Db(m) ==> invoice_error(e) == InvoiceError::Db(m),
        e is InvalidAmount || e is DomainNotAllowed ==> invoice_error(e) is InvalidAmount,
{
}

/// The message of a failed database is its own, and the others are fixed.
pub proof fn law_what_errors_say(message: String)
    ensures
        InvoiceError::InvalidAmount.message_text() == "invoice amount must be positive"@,
        InvoiceError::NotFound.message_text() == "invoice not found"@,
        InvoiceError::Db(message).message_text() == message@,
{
}

} // verus!

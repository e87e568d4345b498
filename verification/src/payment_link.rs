//! Payment links: one reusable link, many checkouts.
//!
//! A merchant creates a link once and shares it. Every open mints a fresh hosted checkout, so
//! that links reuse the whole settlement path. A link either pins an amount (fixed price) or
//! leaves it open for the customer to enter; an optional quantity caps how many times it can
//! be opened.

use crate::checkout;
use crate::checkout::{is_opened, CreateCheckout, OpenedCheckout};
use crate::ids::{is_random_part, make_id, random_part};
use crate::store::{Reply, Statement, StatementView};
use crate::text::{chars_of, string_of};
use vstd::prelude::*;

verus! {

/// A request to create a link.
#[derive(Debug)]
pub struct CreatePaymentLink {
    pub product_name: String,
    /// None for an open amount: the customer enters it when the link is opened.
    pub amount_minor: Option<i64>,
    pub currency: Option<String>,
    /// None for unlimited uses.
    pub quantity: Option<i64>,
}

/// A link as it is stored.
#[derive(Debug)]
pub struct PaymentLink {
    pub id: String,
    /// Public opaque slug in the shared URL.
    pub ref_: String,
    pub product_name: String,
    pub amount_minor: Option<i64>,
    pub currency: String,
    pub quantity: Option<i64>,
    pub status: String,
    pub created_at: String,
}

/// A link to be inserted; it starts out active.
#[derive(Debug)]
pub struct NewLink {
    pub id: String,
    pub ref_: String,
    pub product_name: String,
    pub amount_minor: Option<i64>,
    pub currency: String,
    pub quantity: Option<i64>,
}

/// Why a link could not be opened.
#[derive(Debug)]
pub enum LinkError {
    NotFound,
    /// The link was switched off, or its uses are used up.
    Inactive,
    AmountRequired,
    /// The database failed, with this message.
    Db(String),
}

impl LinkError {
    /// The message of this error.
    pub open spec fn message_text(self) -> Seq<char> {
        match self {
            LinkError::NotFound => "payment link not found"@,
            LinkError::Inactive => "payment link is inactive"@,
            LinkError::AmountRequired => "amount is required for an open-amount link"@,
            LinkError::Db(message) => message@,
        }
    }

    /// The message of this error.
    pub fn message(&self) -> (s: String)
        ensures
            s@ == self.message_text(),
    {
        match self {
            LinkError::NotFound => "payment link not found".to_owned(),
            LinkError::Inactive => "payment link is inactive".to_owned(),
            LinkError::AmountRequired => "amount is required for an open-amount link".to_owned(),
            LinkError::Db(message) => message.clone(),
        }
    }
}

// ---- creating ----

/// Whether `l` is the link that a request asks for, with given random parts of its
/// identifiers. The slug is short: twelve digits of its random part.
pub open spec fn is_requested(
    l: NewLink,
    req: CreatePaymentLink,
    id: Seq<char>,
    slug: Seq<char>,
) -> bool {
    &&& l.id@ == "lnk_"@ + id
    &&& l.ref_@ == slug.take(12)
    &&& l.product_name == req.product_name
    &&& l.amount_minor == req.amount_minor
    &&& l.currency@ == match req.currency {
        Some(c) => if c@.len() > 0 {
            c@
        } else {
            "BDT"@
        },
        None => "BDT"@,
    }
    &&& l.quantity == req.quantity
}

/// The link that a request asks for, with given random parts of its identifiers.
pub fn create_with(id: &str, slug: &str, req: CreatePaymentLink) -> (l: NewLink)
    requires
        slug@.len() >= 12,
    ensures
        is_requested(l, req, id@, slug@),
{
    let v = chars_of(slug);
    let ref_ = string_of(&v, 0, 12);
    assert(ref_@ =~= slug@.take(12));
    let currency = match req.currency {
        Some(c) => if c.as_str().is_empty() {
            "BDT".to_owned()
        } else {
            c
        },
        None => "BDT".to_owned(),
    };
    NewLink {
        id: make_id("lnk_", id),
        ref_,
        product_name: req.product_name,
        amount_minor: req.amount_minor,
        currency,
        quantity: req.quantity,
    }
}

/// The link that a request asks for, under fresh identifiers.
pub fn create(req: CreatePaymentLink) -> (l: NewLink)
    ensures
        exists|id: Seq<char>, slug: Seq<char>|
            is_random_part(id) && is_random_part(slug) && #[trigger] is_requested(
                l,
                req,
                id,
                slug,
            ),
{
    let id = random_part();
    let slug = random_part();
    create_with(id.as_str(), slug.as_str(), req)
}

// ---- opening ----

/// Whether a link with so many uses left can be opened.
pub open spec fn has_uses(quantity: Option<i64>) -> bool {
    match quantity {
        Some(q) => q > 0,
        None => true,
    }
}

/// One use of a link.
#[derive(Debug)]
pub struct LinkUse {
    pub amount_minor: i64,
    pub currency: String,
    /// The statement that takes the use off the link, where its uses are limited.
    pub consume: Option<Statement>,
}

/// The amount that a link is opened for: its own, or else the one that the customer entered.
pub open spec fn amount_for(link: PaymentLink, amount_override: Option<i64>) -> Option<i64> {
    match link.amount_minor {
        Some(a) => Some(a),
        None => amount_override,
    }
}

/// Open a link: settle on the amount, and on whether a use is to be taken off it.
/// `amount_override` supplies the amount for an open-amount link, and is ignored when the
/// link pins its own. A good amount is asked for before a link is called
/// used up.
pub fn open(link: Option<PaymentLink>, amount_override: Option<i64>) -> (r: Result<
    LinkUse,
    LinkError,
>)
    ensures
        match link {
            None => r == Err::<LinkUse, LinkError>(LinkError::NotFound),
            Some(l) => if l.status@ != "active"@ {
                r == Err::<LinkUse, LinkError>(LinkError::Inactive)
            } else {
                match amount_for(l, amount_override) {
                    None => r == Err::<LinkUse, LinkError>(LinkError::AmountRequired),
                    Some(a) => if !has_uses(l.quantity) {
                        r == Err::<LinkUse, LinkError>(
                            if a > 0 {
                                LinkError::Inactive
                            } else {
                                LinkError::AmountRequired
                            },
                        )
                    } else {
                        r matches Ok(u) && u.amount_minor == a && u.currency == l.currency
                            && match u.consume {
                            Some(s) => l.quantity is Some && s@ == (StatementView::ConsumeLink {
                                reference: l.ref_@,
                            }),
                            None => l.quantity is None,
                        }
                    },
                }
            },
        },
{
    let link = match link {
        Some(l) => l,
        None => {
            return Err(LinkError::NotFound);
        },
    };
    if !link.status.as_str().eq("active") {
        return Err(LinkError::Inactive);
    }
    let amount_minor = match link.amount_minor {
        Some(a) => a,
        None => match amount_override {
            Some(a) => a,
            None => {
                return Err(LinkError::AmountRequired);
            },
        },
    };
    let consume = match link.quantity {
        Some(q) => {
            if q <= 0 {
                if amount_minor > 0 {
                    return Err(LinkError::Inactive);
                }
                return Err(LinkError::AmountRequired);
            }
            Some(Statement::ConsumeLink { reference: link.ref_ })
        },
        None => None,
    };
    Ok(LinkUse { amount_minor, currency: link.currency, consume })
}

/// What taking a use off a link came to. A link that had none left by then is inactive.
pub fn consumed(reply: Reply) -> (r: Result<(), LinkError>)
    ensures
        reply matches Reply::Done { rows } ==> r == if rows == 0 {
            Err::<(), LinkError>(LinkError::Inactive)
        } else {
            Ok::<(), LinkError>(())
        },
        reply matches Reply::Failed { message } ==> r == Err::<(), LinkError>(
            LinkError::Db(message),
        ),
        reply is Duplicate ==> (r matches Err(LinkError::Db(m)) && m@ == "unique violation"@),
{
    match reply {
        Reply::Done { rows } => {
            if rows == 0 {
                Err(LinkError::Inactive)
            } else {
                Ok(())
            }
        },
        Reply::Duplicate => Err(LinkError::Db("unique violation".to_owned())),
        Reply::Failed { message } => Err(LinkError::Db(message)),
    }
}

/// The checkout that a use of a link asks for.
pub open spec fn asked_by(u: LinkUse, req: CreateCheckout) -> bool {
    &&& req.full_name is None
    &&& req.email_address is None
    &&& req.mobile_number is None
    &&& req.amount == Some(u.amount_minor)
    &&& req.currency == u.currency
    &&& req.return_url is None
    &&& req.webhook_url is None
    &&& req.metadata@ == "null"@
}

/// Whether `o` is a checkout for one use of a link.
pub open spec fn is_minted(
    o: OpenedCheckout,
    base_url: Seq<char>,
    u: LinkUse,
    id: Seq<char>,
    pay_ref: Seq<char>,
) -> bool {
    exists|req: CreateCheckout|
        asked_by(u, req) && #[trigger] is_opened(o, base_url, req, id, pay_ref)
}

/// Mint the checkout for one use of a link, with given random parts of its identifiers. A use
/// whose amount is not positive asks for a good one.
pub fn mint_with(id: &str, pay_ref: &str, link_use: LinkUse, base_url: &str) -> (r: Result<
    OpenedCheckout,
    LinkError,
>)
    ensures
        if link_use.amount_minor > 0 {
            r matches Ok(o) && is_minted(o, base_url@, link_use, id@, pay_ref@)
        } else {
            r == Err::<OpenedCheckout, LinkError>(LinkError::AmountRequired)
        },
{
    let req = CreateCheckout {
        full_name: None,
        email_address: None,
        mobile_number: None,
        amount: if link_use.amount_minor > 0 {
            Some(link_use.amount_minor)
        } else {
            None
        },
        currency: link_use.currency,
        return_url: None,
        webhook_url: None,
        metadata: "null".to_owned(),
    };
    let ghost asked = req;
    let domains: Vec<String> = Vec::new();
    match checkout::create_checkout_with(id, pay_ref, &domains, base_url, req) {
        Ok(o) => {
            assert(is_opened(o, base_url@, asked, id@, pay_ref@));
            Ok(o)
        },
        Err(_) => Err(LinkError::AmountRequired),
    }
}

/// Mint the checkout for one use of a link, under fresh identifiers.
pub fn mint(link_use: LinkUse, base_url: &str) -> (r: Result<OpenedCheckout, LinkError>)
    ensures
        if link_use.amount_minor > 0 {
            r matches Ok(o) && exists|id: Seq<char>, pay_ref: Seq<char>|
                is_random_part(id) && is_random_part(pay_ref) && #[trigger] is_minted(
                    o,
                    base_url@,
                    link_use,
                    id,
                    pay_ref,
                )
        } else {
            r == Err::<OpenedCheckout, LinkError>(LinkError::AmountRequired)
        },
{
    let id = random_part();
    let pay_ref = random_part();
    mint_with(id.as_str(), pay_ref.as_str(), link_use, base_url)
}

/// What inserting the charge of a minted checkout came to. Whatever went wrong, a good amount
/// is asked for.
pub fn minted(reply: Reply) -> (r: Result<(), LinkError>)
    ensures
        r == if reply is Done {
            Ok::<(), LinkError>(())
        } else {
            Err::<(), LinkError>(LinkError::AmountRequired)
        },
{
    match reply {
        Reply::Done { .. } => Ok(()),
        _ => Err(LinkError::AmountRequired),
    }
}

// ---- laws ----

/// A link has a use left exactly if its uses are not limited, or more than none are left.
pub proof fn law_uses_run_out(quantity: Option<i64>)
    ensures
        quantity is None ==> has_uses(quantity),
        quantity matches Some(q) ==> (has_uses(quantity) <==> q >= 1),
{
}

/// A link that pins its amount is opened for that, whatever the customer enters; one that
/// does not is opened for what the customer enters.
pub proof fn law_pinned_amount_counts(
    link: PaymentLink,
    entered: Option<i64>,
    other: Option<i64>,
)
    ensures
        link.amount_minor is Some ==> amount_for(link, entered) == amount_for(link, other),
        link.amount_minor is Some ==> amount_for(link, entered) == link.amount_minor,
        link.amount_minor is None ==> amount_for(link, entered) == entered,
{
}

/// A link is created as it was asked for, in taka where no currency was named.
pub proof fn law_link_is_what_was_asked(
    l: NewLink,
    req: CreatePaymentLink,
    id: Seq<char>,
    slug: Seq<char>,
)
    requires
        is_requested(l, req, id, slug),
    ensures
        l.id@ == "lnk_"@ + id,
        l.ref_@ == slug.take(12),
        l.product_name == req.product_name,
        l.amount_minor == req.amount_minor,
        l.quantity == req.quantity,
        req.currency matches Some(c) && c@.len() > 0 ==> l.currency@ == req.currency.unwrap()@,
        req.currency is None ==> l.currency@ == "BDT"@,
        req.currency matches Some(c) && c@.len() == 0 ==> l.currency@ == "BDT"@,
{
}

/// A use of a link mints a charge for the amount and the currency of the use, and the customer
/// is sent to the page of that charge.
pub proof fn law_use_is_charged(
    o: OpenedCheckout,
    base_url: Seq<char>,
    u: LinkUse,
    id: Seq<char>,
    pay_ref: Seq<char>,
)
    requires
        is_minted(o, base_url, u, id, pay_ref),
    ensures
        o.charge@.amount_minor == u.amount_minor,
        o.charge@.currency == u.currency@,
        o.charge@.callback_url is None,
        o.charge@.return_url is None,
        o.charge@.metadata is None,
        o.charge@.pay_ref == Some(o.created.sap_id@),
        o.created.sap_url@ == checkout::pay_url(base_url, o.created.sap_id@),
{
}

/// The message of a failed database is its own, and the others are fixed.
pub proof fn law_what_errors_say(message: String)
    ensures
        LinkError::NotFound.message_text() == "payment link not found"@,
        LinkError::Inactive.message_text() == "payment link is inactive"@,
        LinkError::AmountRequired.message_text() == "amount is required for an open-amount link"@,
        LinkError::Db(message).message_text() == message@,
{
}

} // verus!

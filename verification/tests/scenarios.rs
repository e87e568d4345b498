//! The money path from end to end, over tables in memory.

use spritexai_pay::charge::{self, Charge, ChargeError, CreateCharge, NewCharge};
use spritexai_pay::checkout::{
    self, CheckoutCreated, CheckoutError, CheckoutRow, CreateCheckout, PublicCharge, PublicRow,
    Receiver, VerifyResult,
};
use spritexai_pay::fraud;
use spritexai_pay::invoice::{self, CreateInvoice, Invoice, InvoiceError, LineItem};
use spritexai_pay::ledger::{self, Entry};
use spritexai_pay::payment_link::{self, CreatePaymentLink, LinkError, PaymentLink};
use spritexai_pay::reconcile;
use spritexai_pay::sms::{self, Answer, ChargeClaim, IngestError, Ingested, Ingestion, SmsEventView};
use spritexai_pay::store::{Reply, Statement};
use spritexai_pay::webhook::NewDelivery;

/// A charge in its table.
struct Row {
    charge: NewCharge,
    status: String,
    gateway: Option<String>,
    claimed_trx_id: Option<String>,
    claimed_sender: Option<String>,
}

/// The tables that the engine writes to.
struct Tables {
    charges: Vec<Row>,
    events: Vec<SmsEventView>,
    entries: Vec<Entry>,
    deliveries: Vec<NewDelivery>,
    invoices: Vec<Invoice>,
    links: Vec<PaymentLink>,
    domains: Vec<String>,
    extracted: Option<spritexai_pay::gateway::ParsedTxn>,
}

fn tables() -> Tables {
    Tables {
        charges: Vec::new(),
        events: Vec::new(),
        entries: Vec::new(),
        deliveries: Vec::new(),
        invoices: Vec::new(),
        links: Vec::new(),
        domains: Vec::new(),
        extracted: None,
    }
}

fn copy(c: &NewCharge) -> NewCharge {
    NewCharge {
        id: c.id.clone(),
        order_id: c.order_id.clone(),
        amount_minor: c.amount_minor,
        currency: c.currency.clone(),
        customer_name: c.customer_name.clone(),
        customer_msisdn: c.customer_msisdn.clone(),
        customer_email: c.customer_email.clone(),
        callback_url: c.callback_url.clone(),
        webhook_url: c.webhook_url.clone(),
        return_url: c.return_url.clone(),
        metadata: c.metadata.clone(),
        pay_ref: c.pay_ref.clone(),
    }
}

impl Tables {
    fn insert_charge(&mut self, c: &NewCharge) -> Reply {
        let taken = self.charges.iter().any(|r| r.charge.order_id == c.order_id);
        if taken {
            return Reply::Duplicate;
        }
        self.charges.push(Row {
            charge: copy(c),
            status: "pending".to_string(),
            gateway: None,
            claimed_trx_id: None,
            claimed_sender: None,
        });
        Reply::Done { rows: 1 }
    }

    fn insert_event(&mut self, e: &sms::SmsEvent) -> Reply {
        let seen = self
            .events
            .iter()
            .any(|x| x.gateway == e.gateway && x.txn_id == e.txn_id);
        if seen {
            return Reply::Duplicate;
        }
        self.events.push(SmsEventView {
            id: e.id.clone(),
            gateway: e.gateway.to_string(),
            txn_id: e.txn_id.clone(),
            amount_minor: e.amount_minor,
            sender_msisdn: e.sender_msisdn.clone(),
            charge_id: e.charge_id.clone(),
            matched: e.matched,
            received_at: String::new(),
        });
        Reply::Done { rows: 1 }
    }

    fn carry_out(&mut self, s: &Statement) -> Reply {
        let mut rows = 0;
        match s {
            Statement::InsertCharge(c) => return self.insert_charge(c),
            Statement::InsertSmsEvent(e) => return self.insert_event(e),
            Statement::PostLedger(p) => {
                rows = 1;
                self.entries.extend(p.entries.iter().cloned());
            }
            Statement::MarkChargePaid { id } => {
                for r in self.charges.iter_mut().filter(|r| r.charge.id == *id) {
                    r.status = "paid".to_string();
                    rows += 1;
                }
            }
            Statement::SettleInvoices { charge_id } => {
                for i in self.invoices.iter_mut() {
                    if i.charge_id.as_ref() == Some(charge_id) && i.status == "unpaid" {
                        i.status = "paid".to_string();
                        rows += 1;
                    }
                }
            }
            Statement::EnqueueWebhook(d) => {
                rows = 1;
                self.deliveries.push(NewDelivery {
                    id: d.id.clone(),
                    charge_id: d.charge_id.clone(),
                    url: d.url.clone(),
                    event: d.event.clone(),
                    payload: d.payload.clone(),
                });
            }
            Statement::SelectGateway { pay_ref, gateway } => {
                for r in self.charges.iter_mut() {
                    if r.charge.pay_ref.as_ref() == Some(pay_ref) && r.status == "pending" {
                        r.gateway = Some(gateway.clone());
                        rows += 1;
                    }
                }
            }
            Statement::ClaimTransaction { pay_ref, trx_id, sender } => {
                for r in self.charges.iter_mut() {
                    if r.charge.pay_ref.as_ref() == Some(pay_ref) && r.status == "pending" {
                        r.claimed_trx_id = Some(trx_id.clone());
                        r.claimed_sender = sender.clone();
                        rows += 1;
                    }
                }
            }
            Statement::InsertInvoice(i) => {
                rows = 1;
                self.invoices.push(Invoice {
                    id: i.id.clone(),
                    number: i.number.clone(),
                    customer_id: i.customer_id.clone(),
                    amount_minor: i.amount_minor,
                    currency: i.currency.clone(),
                    status: "unpaid".to_string(),
                    charge_id: None,
                    pay_ref: None,
                    created_at: String::new(),
                    updated_at: String::new(),
                });
            }
            Statement::BindInvoice { id, pay_ref, charge_id } => {
                for i in self.invoices.iter_mut().filter(|i| i.id == *id) {
                    i.pay_ref = Some(pay_ref.clone());
                    i.charge_id = Some(charge_id.clone());
                    rows += 1;
                }
            }
            Statement::ConsumeLink { reference } => {
                for l in self.links.iter_mut().filter(|l| l.ref_ == *reference) {
                    if let Some(q) = l.quantity {
                        if q > 0 {
                            l.quantity = Some(q - 1);
                            rows += 1;
                        }
                    }
                }
            }
        }
        Reply::Done { rows }
    }

    fn claims(&self) -> Vec<ChargeClaim> {
        self.charges
            .iter()
            .map(|r| ChargeClaim {
                id: r.charge.id.clone(),
                amount_minor: r.charge.amount_minor,
                status: r.status.clone(),
                customer_msisdn: r.charge.customer_msisdn.clone(),
            })
            .collect()
    }

    fn charge(&self, id: &str) -> Option<Charge> {
        self.charges.iter().find(|r| r.charge.id == id).map(|r| Charge {
            id: r.charge.id.clone(),
            order_id: r.charge.order_id.clone(),
            amount_minor: r.charge.amount_minor,
            currency: r.charge.currency.clone(),
            customer_name: r.charge.customer_name.clone(),
            customer_msisdn: r.charge.customer_msisdn.clone(),
            callback_url: r.charge.callback_url.clone(),
            status: r.status.clone(),
            created_at: String::new(),
            updated_at: String::new(),
        })
    }

    fn create_charge(&mut self, req: CreateCharge) -> Result<Charge, ChargeError> {
        let order_id = req.order_id.clone();
        let c = charge::create(req)?;
        let reply = self.insert_charge(&c);
        charge::created(order_id, reply)?;
        charge::get(self.charge(&c.id))
    }

    fn create_checkout(
        &mut self,
        base_url: &str,
        req: CreateCheckout,
    ) -> Result<CheckoutCreated, CheckoutError> {
        let o = checkout::create_checkout(&self.domains, base_url, req)?;
        let reply = self.insert_charge(&o.charge);
        checkout::opened(reply)?;
        Ok(o.created)
    }

    fn ingest(&mut self, gw: &str, body: &str) -> Result<Ingested, IngestError> {
        let mut state = sms::ingest(gw, body);
        loop {
            let answer = match &state {
                Ingestion::Extract(_) => Answer::Extracted(self.extracted.clone()),
                Ingestion::ListClaims(_) => Answer::Claims(self.claims()),
                Ingestion::Insert(e) => Answer::Replied(self.insert_event(e)),
                Ingestion::LoadCharge(i) => {
                    Answer::Found(self.charge(i.matched_charge.as_deref().unwrap()))
                }
                Ingestion::Settle { plan, next, .. } => {
                    Answer::Replied(self.carry_out(&plan[*next]))
                }
                _ => Answer::Replied(Reply::Done { rows: 0 }),
            };
            state = match state {
                Ingestion::Finished(done) => return Ok(done),
                Ingestion::Refused(e) => return Err(e),
                waiting => sms::resume(waiting, answer),
            };
        }
    }

    fn balance(&self, account: &str) -> i64 {
        ledger::account_balance(&self.entries, account).unwrap()
    }

    fn row(&self, pay_ref: &str) -> &Row {
        self.charges
            .iter()
            .find(|r| r.charge.pay_ref.as_deref() == Some(pay_ref))
            .unwrap()
    }

    fn status_of(&self, pay_ref: &str) -> String {
        self.row(pay_ref).status.clone()
    }

    fn public(&self, pay_ref: &str) -> Result<PublicCharge, CheckoutError> {
        let row = self
            .charges
            .iter()
            .find(|r| r.charge.pay_ref.as_deref() == Some(pay_ref))
            .map(|r| PublicRow {
                amount_minor: r.charge.amount_minor,
                currency: r.charge.currency.clone(),
                status: r.status.clone(),
                gateway: r.gateway.clone(),
                return_url: r.charge.return_url.clone(),
            });
        let receivers = vec![Receiver {
            gateway: "bkash".to_string(),
            label: None,
            account_msisdn: Some("01700000001".to_string()),
        }];
        checkout::get_public_charge(pay_ref, row, receivers)
    }

    fn verify(&self, pay_ref: &str) -> Result<VerifyResult, CheckoutError> {
        let row = self
            .charges
            .iter()
            .find(|r| r.charge.pay_ref.as_deref() == Some(pay_ref))
            .map(|r| CheckoutRow {
                id: r.charge.id.clone(),
                pay_ref: r.charge.pay_ref.clone(),
                amount_minor: r.charge.amount_minor,
                currency: r.charge.currency.clone(),
                customer_name: r.charge.customer_name.clone(),
                customer_email: r.charge.customer_email.clone(),
                customer_msisdn: r.charge.customer_msisdn.clone(),
                gateway: r.gateway.clone(),
                metadata: r.charge.metadata.clone(),
                claimed_trx_id: r.claimed_trx_id.clone(),
                claimed_sender: r.claimed_sender.clone(),
                status: r.status.clone(),
                created_at: "2024-01-01".to_string(),
            });
        let settled = row.as_ref().and_then(|c| {
            self.events
                .iter()
                .rev()
                .find(|e| e.charge_id.as_deref() == Some(c.id.as_str()) && e.matched == 1)
                .map(|e| e.txn_id.clone())
        });
        checkout::verify(row, settled)
    }

    fn create_invoice(&mut self, req: CreateInvoice) -> Result<Invoice, InvoiceError> {
        assert!(invoice::total_of(&req.items).is_some());
        let i = invoice::create(req)?;
        let id = i.id.clone();
        let reply = self.carry_out(&Statement::InsertInvoice(i));
        invoice::stored(reply)?;
        self.invoice(&id).ok_or(InvoiceError::NotFound)
    }

    fn invoice(&self, id: &str) -> Option<Invoice> {
        self.invoices.iter().find(|i| i.id == id).map(|i| Invoice {
            id: i.id.clone(),
            number: i.number.clone(),
            customer_id: i.customer_id.clone(),
            amount_minor: i.amount_minor,
            currency: i.currency.clone(),
            status: i.status.clone(),
            charge_id: i.charge_id.clone(),
            pay_ref: i.pay_ref.clone(),
            created_at: String::new(),
            updated_at: String::new(),
        })
    }

    fn create_link(&mut self, req: CreatePaymentLink) -> String {
        let l = payment_link::create(req);
        let reference = l.ref_.clone();
        self.links.push(PaymentLink {
            id: l.id,
            ref_: l.ref_,
            product_name: l.product_name,
            amount_minor: l.amount_minor,
            currency: l.currency,
            quantity: l.quantity,
            status: "active".to_string(),
            created_at: String::new(),
        });
        reference
    }

    fn link(&self, reference: &str) -> Option<PaymentLink> {
        self.links.iter().find(|l| l.ref_ == reference).map(|l| PaymentLink {
            id: l.id.clone(),
            ref_: l.ref_.clone(),
            product_name: l.product_name.clone(),
            amount_minor: l.amount_minor,
            currency: l.currency.clone(),
            quantity: l.quantity,
            status: l.status.clone(),
            created_at: String::new(),
        })
    }

    fn open_link(
        &mut self,
        base_url: &str,
        reference: &str,
        amount: Option<i64>,
    ) -> Result<CheckoutCreated, LinkError> {
        let link_use = payment_link::open(self.link(reference), amount)?;
        if let Some(s) = &link_use.consume {
            let reply = self.carry_out(s);
            payment_link::consumed(reply)?;
        }
        let o = payment_link::mint(link_use, base_url)?;
        let reply = self.insert_charge(&o.charge);
        payment_link::minted(reply)?;
        Ok(o.created)
    }
}

fn order(order_id: &str, amount_minor: i64, msisdn: Option<&str>) -> CreateCharge {
    CreateCharge {
        order_id: order_id.into(),
        amount_minor,
        currency: "BDT".into(),
        customer_name: None,
        customer_msisdn: msisdn.map(str::to_string),
        callback_url: None,
    }
}

// ---- charges and the ledger ----

#[test]
fn settling_a_charge_posts_a_balanced_ledger() {
    let mut db = tables();

    // Create a 500.00 BDT charge (50000 poisha).
    let charge = db
        .create_charge(CreateCharge {
            order_id: "ORD-1001".into(),
            amount_minor: 50_000,
            currency: "BDT".into(),
            customer_name: Some("Rifat".into()),
            customer_msisdn: Some("01700000000".into()),
            callback_url: None,
        })
        .expect("charge created");

    assert_eq!(charge.status, "pending");
    assert!(charge.id.starts_with("chg_"));

    // Settle it.
    let plan = charge::mark_paid(&charge).expect("mark paid");
    for s in &plan {
        let reply = db.carry_out(s);
        charge::settled(reply).expect("mark paid");
    }

    let settled = charge::get(db.charge(&charge.id)).unwrap();
    assert_eq!(settled.status, "paid");

    // The two mirror accounts must net to zero across the whole ledger.
    let receivable = db.balance("merchant:receivable");
    let clearing = db.balance("customer:clearing");
    assert_eq!(receivable, 50_000);
    assert_eq!(clearing, -50_000);
    assert_eq!(receivable + clearing, 0, "ledger must balance");
}

#[test]
fn duplicate_order_is_rejected() {
    let mut db = tables();
    let mk = || CreateCharge {
        order_id: "ORD-DUP".into(),
        amount_minor: 100,
        currency: "BDT".into(),
        customer_name: None,
        customer_msisdn: None,
        callback_url: None,
    };
    db.create_charge(mk()).expect("first ok");
    let err = db.create_charge(mk()).unwrap_err();
    assert!(matches!(err, ChargeError::DuplicateOrder(_)));
    assert_eq!(err.message(), "a charge already exists for order_id ORD-DUP");
}

#[test]
fn charge_errors_have_their_causes() {
    assert!(matches!(charge::create(order("A", 0, None)), Err(ChargeError::InvalidAmount)));
    assert!(matches!(charge::create(order("A", -1, None)), Err(ChargeError::InvalidAmount)));
    assert!(charge::create(order("A", 1, None)).is_ok());
    assert!(matches!(charge::get(None), Err(ChargeError::NotFound)));
    let failed = Reply::Failed { message: "disk full".to_string() };
    match charge::created("A".to_string(), failed) {
        Err(e) => assert_eq!(e.message(), "disk full"),
        Ok(()) => panic!(),
    }
    assert_eq!(ChargeError::InvalidAmount.message(), "amount must be positive");
    assert_eq!(ChargeError::NotFound.message(), "charge not found");
}

// ---- ingestion ----

#[test]
fn unparseable_sms_errors_when_no_ai_providers() {
    let mut db = tables();
    let result = db.ingest("bkash", "totally drifted format with no fields");
    assert!(matches!(result, Err(IngestError::Parse(_))));
    // Nothing was stored.
    assert_eq!(db.events.len(), 0);
}

#[test]
fn replayed_sms_settles_charge_exactly_once() {
    let mut db = tables();

    // A merchant expects 500.00 BDT.
    let chg = db.create_charge(order("ORD-SMS-1", 50_000, None)).unwrap();
    assert_eq!(chg.currency, "BDT");

    let raw = "You have received Tk 500.00 from 01710000000. TrxID BGL7AH92KX";

    // First delivery: matches and settles.
    let first = db.ingest("bkash", raw).expect("first ingest");
    assert_eq!(first.matched_charge.as_deref(), Some(chg.id.as_str()));
    assert_eq!(charge::get(db.charge(&chg.id)).unwrap().status, "paid");

    // Replay: same TrxID → rejected as duplicate, no second settlement.
    let replay = db.ingest("bkash", raw);
    assert!(matches!(replay, Err(IngestError::Duplicate)));

    // Ledger reflects exactly one settlement (500.00, not 1000.00).
    let receivable = db.balance("merchant:receivable");
    assert_eq!(receivable, 50_000, "charge must settle exactly once");
}

#[test]
fn settlement_enqueues_webhook_when_callback_set() {
    let mut db = tables();
    db.create_charge(CreateCharge {
        order_id: "ORD-CB".into(),
        amount_minor: 25_000,
        currency: "BDT".into(),
        customer_name: None,
        customer_msisdn: None,
        callback_url: Some("https://merchant.example/hook".into()),
    })
    .unwrap();

    db.ingest("bkash", "received Tk 250.00 from 01710000000. TrxID CBHK1")
        .unwrap();

    let queued = db.deliveries.iter().filter(|d| d.event == "charge.paid").count();
    assert_eq!(
        queued, 1,
        "a pending merchant webhook must be enqueued on settlement"
    );
    let d = &db.deliveries[0];
    assert_eq!(d.url, "https://merchant.example/hook");
    let v: serde_json::Value = serde_json::from_str(&d.payload).unwrap();
    assert_eq!(v["event"], "charge.paid");
    assert_eq!(v["order_id"], "ORD-CB");
    assert_eq!(v["amount_minor"], 25_000);
    assert_eq!(v["currency"], "BDT");
    assert_eq!(v["status"], "paid");
    assert_eq!(v["charge_id"], d.charge_id.as_str());
    // The document is written as serde_json writes it.
    assert_eq!(v.to_string(), d.payload);
}

fn req(amount: f64, msisdn: &str) -> CreateCheckout {
    CreateCheckout {
        full_name: None,
        email_address: None,
        mobile_number: Some(msisdn.into()),
        amount: Some((amount * 100.0).round() as i64),
        currency: "BDT".into(),
        return_url: None,
        webhook_url: None,
        metadata: "null".into(),
    }
}

#[test]
fn unique_amount_settles_regardless_of_sender() {
    let mut db = tables();
    let a = db.create_checkout("https://p", req(700.0, "01710000000")).unwrap();
    // Paid from a different number than declared — still the sole claim on ৳700.
    db.ingest("bkash", "received Tk 700.00 from 01999999999. TrxID TRX700A")
        .unwrap();
    assert_eq!(db.status_of(&a.sap_id), "paid");
}

#[test]
fn sender_disambiguates_same_amount_charges() {
    let mut db = tables();
    let a = db.create_checkout("https://p", req(1500.0, "01710000000")).unwrap();
    let b = db.create_checkout("https://p", req(1500.0, "01820000000")).unwrap();
    // SMS from B's number → B settles, A stays pending. No oldest-first guess.
    db.ingest("bkash", "received Tk 1500.00 from 01820000000. TrxID TRXB01")
        .unwrap();
    assert_eq!(db.status_of(&b.sap_id), "paid");
    assert_eq!(db.status_of(&a.sap_id), "pending");
}

#[test]
fn ambiguous_amount_unknown_sender_refuses() {
    let mut db = tables();
    let a = db.create_checkout("https://p", req(1500.0, "01710000000")).unwrap();
    let b = db.create_checkout("https://p", req(1500.0, "01820000000")).unwrap();
    // Paid from a number matching neither → refuse; nothing settles.
    let out = db
        .ingest("bkash", "received Tk 1500.00 from 01990000000. TrxID TRXX01")
        .unwrap();
    assert!(out.matched_charge.is_none());
    assert_eq!(db.status_of(&a.sap_id), "pending");
    assert_eq!(db.status_of(&b.sap_id), "pending");
}

#[test]
fn ambiguous_amount_without_sender_refuses() {
    let mut db = tables();
    db.create_checkout("https://p", req(15.0, "01710000000")).unwrap();
    db.create_checkout("https://p", req(15.0, "01710000000")).unwrap();
    let out = db.ingest("bkash", "received Tk 15.00 TrxID NOSENDER").unwrap();
    assert!(out.matched_charge.is_none());
    // Two charges that declare the sender are as ambiguous.
    let out = db
        .ingest("bkash", "received Tk 15.00 from 01710000000 TrxID TWICE")
        .unwrap();
    assert!(out.matched_charge.is_none());
    assert_eq!(db.entries.len(), 0);
}

#[test]
fn sender_matches_in_any_format() {
    let mut db = tables();
    let a = db.create_checkout("https://p", req(9.0, "+880 1710-000000")).unwrap();
    db.create_checkout("https://p", req(9.0, "01820000000")).unwrap();
    db.ingest("bkash", "received Tk 9.00 from 01710000000 TrxID FORMAT1")
        .unwrap();
    assert_eq!(db.status_of(&a.sap_id), "paid");
}

#[test]
fn amount_that_nobody_asked_for_settles_nothing() {
    let mut db = tables();
    db.create_charge(order("A", 50_000, None)).unwrap();
    let out = db.ingest("nagad", "Amount: Tk 500.01 TxnID: N1").unwrap();
    assert!(out.matched_charge.is_none());
    assert_eq!(out.txn_id, "N1");
    assert!(out.sms_event_id.starts_with("sms_"));
    assert_eq!(db.events[0].matched, 0);
    assert_eq!(db.entries.len(), 0);
}

#[test]
fn unknown_gateway_is_refused() {
    let mut db = tables();
    let e = db.ingest("rocket", "received Tk 5 TrxID A").unwrap_err();
    assert!(matches!(e, IngestError::UnknownGateway));
    assert_eq!(e.message(), "unknown gateway");
    assert_eq!(IngestError::Duplicate.message(), "duplicate transaction (already processed)");
}

#[test]
fn recovered_extraction_settles() {
    let mut db = tables();
    let chg = db.create_charge(order("AI-1", 12_050, None)).unwrap();
    db.extracted = Some(spritexai_pay::gateway::ParsedTxn {
        gateway: "nagad",
        txn_id: "XYZ9".to_string(),
        amount_minor: 12_050,
        sender_msisdn: None,
    });
    let out = db.ingest("nagad", "you got money").unwrap();
    assert_eq!(out.matched_charge.as_deref(), Some(chg.id.as_str()));
    assert_eq!(db.balance("merchant:receivable"), 12_050);
}

#[test]
fn failing_database_stops_an_ingestion() {
    let raw = "received Tk 5.00 from 01710000000. TrxID F1";
    let failed = || Answer::Replied(Reply::Failed { message: "locked".to_string() });
    let listing = sms::ingest("bkash", raw);
    assert!(matches!(listing, Ingestion::ListClaims(_)));
    assert!(matches!(
        sms::resume(listing, failed()),
        Ingestion::Refused(IngestError::Db(m)) if m == "locked"
    ));
    let rows = || {
        vec![ChargeClaim {
            id: "chg_1".to_string(),
            amount_minor: 500,
            status: "pending".to_string(),
            customer_msisdn: None,
        }]
    };
    let insert = sms::resume(sms::ingest("bkash", raw), Answer::Claims(rows()));
    assert!(matches!(
        sms::resume(insert, failed()),
        Ingestion::Refused(IngestError::Db(m)) if m == "locked"
    ));
    let insert = sms::resume(sms::ingest("bkash", raw), Answer::Claims(rows()));
    let load = sms::resume(insert, Answer::Replied(Reply::Done { rows: 1 }));
    assert!(matches!(load, Ingestion::LoadCharge(_)));
    // An answer that is not waited for changes nothing.
    let load = sms::resume(load, Answer::Extracted(None));
    assert!(matches!(load, Ingestion::LoadCharge(_)));
    assert!(matches!(
        sms::resume(load, Answer::Found(None)),
        Ingestion::Refused(IngestError::Charge(ChargeError::NotFound))
    ));
    let insert = sms::resume(sms::ingest("bkash", raw), Answer::Claims(rows()));
    let load = sms::resume(insert, Answer::Replied(Reply::Done { rows: 1 }));
    let charge = Charge {
        id: "chg_1".to_string(),
        order_id: "O".to_string(),
        amount_minor: 500,
        currency: "BDT".to_string(),
        customer_name: None,
        customer_msisdn: None,
        callback_url: None,
        status: "pending".to_string(),
        created_at: String::new(),
        updated_at: String::new(),
    };
    let settle = sms::resume(load, Answer::Found(Some(charge)));
    match &settle {
        Ingestion::Settle { plan, next, .. } => {
            assert_eq!(*next, 0);
            assert_eq!(plan.len(), 3);
            assert!(matches!(plan[0], Statement::PostLedger(_)));
        }
        other => panic!("{other:?}"),
    }
    assert!(matches!(
        sms::resume(settle, failed()),
        Ingestion::Refused(IngestError::Charge(ChargeError::Db(m))) if m == "locked"
    ));
}

// ---- checkout ----

fn shop(amount: f64) -> CreateCheckout {
    CreateCheckout {
        full_name: Some("Rahim".into()),
        email_address: Some("r@example.com".into()),
        mobile_number: Some("01710000000".into()),
        amount: Some((amount * 100.0).round() as i64),
        currency: "BDT".into(),
        return_url: Some("https://shop.example/thanks".into()),
        webhook_url: Some("https://shop.example/hook".into()),
        metadata: r#"{"order":"A-1"}"#.into(),
    }
}

#[test]
fn create_returns_pay_url_and_public_view_hides_secrets() {
    let mut db = tables();
    let out = db.create_checkout("https://pay.example", shop(500.0)).unwrap();
    assert!(out.sap_url.starts_with("https://pay.example/pay/pay_"));
    assert_eq!(out.sap_id, out.sap_url.rsplit('/').next().unwrap());

    let pub_view = db.public(&out.sap_id).unwrap();
    assert_eq!(pub_view.amount_minor, 50_000);
    assert_eq!(pub_view.status, "pending");
    // PublicCharge has no webhook_url / metadata fields — secrets can't leak here.
    assert_eq!(pub_view.return_url.as_deref(), Some("https://shop.example/thanks"));
    assert_eq!(pub_view.receivers.len(), 1);
}

#[test]
fn manual_claim_does_not_settle() {
    let mut db = tables();
    let out = db.create_checkout("https://pay.example", shop(300.0)).unwrap();
    let reply = db.carry_out(&checkout::submit_manual(&out.sap_id, "FAKE123", Some("01710000000")));
    checkout::changed(reply).unwrap();

    // Still pending — a customer can't self-settle.
    let v = db.verify(&out.sap_id).unwrap();
    assert_eq!(v.status, "pending");
    assert_eq!(v.transaction_id.as_deref(), Some("FAKE123"));
    assert_eq!(v.sender.as_deref(), Some("01710000000"));
}

#[test]
fn sms_settlement_flips_status_to_completed() {
    let mut db = tables();
    let out = db.create_checkout("https://pay.example", shop(500.0)).unwrap();

    // The forwarder delivers a matching bKash SMS → amount match settles it.
    db.ingest(
        "bkash",
        "You have received Tk 500.00 from 01710000000. TrxID REALTRX9",
    )
    .unwrap();

    let v = db.verify(&out.sap_id).unwrap();
    assert_eq!(v.status, "completed");
    assert_eq!(v.transaction_id.as_deref(), Some("REALTRX9"));
    assert_eq!(v.amount, "500.00");
    assert_eq!(v.metadata, r#"{"order":"A-1"}"#);
    assert_eq!(v.full_name.as_deref(), Some("Rahim"));
    assert_eq!(v.date, "2024-01-01");

    // And the underlying charge is paid.
    let internal_id = db.row(&out.sap_id).charge.id.clone();
    assert_eq!(charge::get(db.charge(&internal_id)).unwrap().status, "paid");
    // The merchant's webhook is queued, and a customer can change nothing any more.
    assert_eq!(db.deliveries[0].url, "https://shop.example/hook");
    let reply = db.carry_out(&checkout::select_gateway(&out.sap_id, "nagad"));
    assert!(matches!(checkout::changed(reply), Err(CheckoutError::NotFound)));
}

#[test]
fn checkout_errors_have_their_causes() {
    let mut db = tables();
    let bad = CreateCheckout { amount: None, ..shop(1.0) };
    assert!(matches!(db.create_checkout("https://p", bad), Err(CheckoutError::InvalidAmount)));
    db.domains.push("shop.example".to_string());
    assert!(db.create_checkout("https://p", shop(1.0)).is_ok());
    let evil = CreateCheckout {
        webhook_url: Some("https://evil.com/x".into()),
        ..shop(1.0)
    };
    let e = db.create_checkout("https://p", evil).unwrap_err();
    assert!(matches!(e, CheckoutError::DomainNotAllowed));
    assert_eq!(e.message(), "return_url or webhook_url host is not whitelisted");
    assert!(matches!(db.public("pay_none"), Err(CheckoutError::NotFound)));
    assert!(matches!(db.verify("pay_none"), Err(CheckoutError::NotFound)));
    let reply = db.carry_out(&checkout::select_gateway("pay_none", "bkash"));
    assert!(matches!(checkout::changed(reply), Err(CheckoutError::NotFound)));
}

#[test]
fn stored_document_is_echoed_or_null() {
    let row = |metadata: Option<&str>| CheckoutRow {
        id: "chg_1".to_string(),
        pay_ref: None,
        amount_minor: 5,
        currency: "BDT".to_string(),
        customer_name: None,
        customer_email: None,
        customer_msisdn: None,
        gateway: None,
        metadata: metadata.map(str::to_string),
        claimed_trx_id: None,
        claimed_sender: None,
        status: "expired".to_string(),
        created_at: String::new(),
    };
    let v = checkout::verify(Some(row(Some("{ \"b\" : 1,\n\"a\":[ ] }"))), None).unwrap();
    assert_eq!(v.metadata, r#"{"a":[],"b":1}"#);
    assert_eq!(v.status, "expired");
    assert_eq!(v.sap_id, "");
    assert_eq!(checkout::verify(Some(row(Some("{broken"))), None).unwrap().metadata, "null");
    assert_eq!(checkout::verify(Some(row(None)), None).unwrap().metadata, "null");
}

#[test]
fn trailing_slashes_of_the_base_url_are_ignored() {
    let o = checkout::create_checkout_with("1", "2", &Vec::new(), "https://p//", shop(1.0)).unwrap();
    assert_eq!(o.created.sap_url, "https://p/pay/pay_2");
    assert_eq!(o.created.sap_id, "pay_2");
    assert_eq!(o.charge.id, "chg_1");
    assert_eq!(o.charge.order_id, "pay_2");
    assert_eq!(o.charge.callback_url.as_deref(), Some("https://shop.example/hook"));
    assert_eq!(o.charge.metadata.as_deref(), Some(r#"{"order":"A-1"}"#));
    let plain = checkout::create_checkout_with("1", "2", &Vec::new(), "", req(1.0, "0")).unwrap();
    assert_eq!(plain.charge.metadata, None);
    assert_eq!(plain.created.sap_url, "/pay/pay_2");
}

// ---- invoices ----

fn item(desc: &str, qty: i64, unit: i64) -> LineItem {
    LineItem {
        description: desc.into(),
        quantity: qty,
        unit_minor: unit,
    }
}

#[test]
fn create_sums_items_and_starts_unpaid() {
    let mut db = tables();
    let inv = db
        .create_invoice(CreateInvoice {
            number: None,
            customer_id: Some("cus_1".into()),
            currency: None,
            items: vec![item("Design", 2, 15_000), item("Hosting", 1, 5_000)],
        })
        .unwrap();

    assert_eq!(inv.amount_minor, 35_000);
    assert_eq!(inv.status, "unpaid");
    assert!(inv.number.starts_with("INV-"));
    assert_eq!(inv.number.len(), 12);
    assert_eq!(inv.number[4..], inv.id[4..12]);
    assert_eq!(inv.currency, "BDT");
}

#[test]
fn empty_or_zero_items_are_rejected() {
    let mut db = tables();
    let empty = db.create_invoice(CreateInvoice {
        number: None,
        customer_id: None,
        currency: None,
        items: vec![],
    });
    assert!(matches!(empty, Err(InvoiceError::InvalidAmount)));

    let zero = db.create_invoice(CreateInvoice {
        number: None,
        customer_id: None,
        currency: None,
        items: vec![item("Freebie", 3, 0)],
    });
    assert!(matches!(zero, Err(InvoiceError::InvalidAmount)));
}

#[test]
fn settle_flips_matching_unpaid_invoice() {
    let mut db = tables();
    let inv = db
        .create_invoice(CreateInvoice {
            number: None,
            customer_id: None,
            currency: None,
            items: vec![item("Retainer", 1, 50_000)],
        })
        .unwrap();

    // Bind a charge id the way issue_payment would, then settle on it.
    db.carry_out(&Statement::BindInvoice {
        id: inv.id.clone(),
        pay_ref: "pay_test".to_string(),
        charge_id: "chg_test".to_string(),
    });
    db.carry_out(&invoice::settle_for_charge("chg_test"));

    let after = db.invoice(&inv.id).unwrap();
    assert_eq!(after.status, "paid");
}

#[test]
fn issued_invoice_is_paid_by_sms() {
    let mut db = tables();
    let inv = db
        .create_invoice(CreateInvoice {
            number: Some("2024-7".into()),
            customer_id: None,
            currency: Some("BDT".into()),
            items: vec![item("Retainer", 1, 50_000)],
        })
        .unwrap();
    assert_eq!(inv.number, "2024-7");
    let issued = invoice::issue_payment(db.invoice(&inv.id), "https://p/").unwrap();
    assert!(issued.created.sap_url.starts_with("https://p/pay/pay_"));
    for s in &issued.plan {
        let reply = db.carry_out(s);
        invoice::stored(reply).unwrap();
    }
    let bound = db.invoice(&inv.id).unwrap();
    assert_eq!(bound.pay_ref.as_deref(), Some(issued.created.sap_id.as_str()));
    db.ingest("bkash", "received Tk 500.00 from 01710000000. TrxID INV1")
        .unwrap();
    assert_eq!(db.invoice(&inv.id).unwrap().status, "paid");
}

#[test]
fn invoice_errors_have_their_causes() {
    assert!(matches!(
        invoice::issue_payment(None, "https://p"),
        Err(InvoiceError::NotFound)
    ));
    assert_eq!(InvoiceError::InvalidAmount.message(), "invoice amount must be positive");
    assert_eq!(InvoiceError::NotFound.message(), "invoice not found");
    assert_eq!(invoice::total_of(&vec![item("x", i64::MAX, 2)]), None);
    assert_eq!(
        invoice::total_of(&vec![item("x", 1, i64::MAX), item("y", 1, 1)]),
        None
    );
    assert_eq!(invoice::total_of(&vec![item("x", 3, 7), item("y", 2, -1)]), Some(19));
    assert!(matches!(
        InvoiceError::from(CheckoutError::DomainNotAllowed),
        InvoiceError::InvalidAmount
    ));
}

// ---- payment links ----

fn fixed() -> CreatePaymentLink {
    CreatePaymentLink {
        product_name: "T-shirt".into(),
        amount_minor: Some(50_000),
        currency: None,
        quantity: None,
    }
}

#[test]
fn create_then_list_returns_it() {
    let mut db = tables();
    let reference = db.create_link(fixed());
    let link = db.link(&reference).unwrap();
    assert!(link.id.starts_with("lnk_"));
    assert_eq!(link.amount_minor, Some(50_000));
    assert_eq!(link.currency, "BDT");
    assert_eq!(link.ref_.len(), 12);

    let all = &db.links;
    assert_eq!(all.len(), 1);
    assert_eq!(all[0].ref_, link.ref_);
}

#[test]
fn open_on_inactive_link_is_rejected() {
    let mut db = tables();
    let reference = db.create_link(fixed());
    db.links[0].status = "inactive".to_string();

    let err = db.open_link("https://pay.example", &reference, None).unwrap_err();
    assert!(matches!(err, LinkError::Inactive));
}

#[test]
fn open_amount_link_without_override_requires_amount() {
    let mut db = tables();
    let reference = db.create_link(CreatePaymentLink {
        product_name: "Donation".into(),
        amount_minor: None,
        currency: None,
        quantity: None,
    });

    let err = db.open_link("https://pay.example", &reference, None).unwrap_err();
    assert!(matches!(err, LinkError::AmountRequired));
    // Nor is a sum that is not above zero one.
    let err = db.open_link("https://pay.example", &reference, Some(0)).unwrap_err();
    assert!(matches!(err, LinkError::AmountRequired));
    let opened = db.open_link("https://pay.example", &reference, Some(700)).unwrap();
    assert_eq!(db.row(&opened.sap_id).charge.amount_minor, 700);
}

#[test]
fn quantity_caps_opens() {
    let mut db = tables();
    let reference = db.create_link(CreatePaymentLink {
        quantity: Some(2),
        ..fixed()
    });
    // The link's own amount counts, whatever the customer enters.
    let first = db.open_link("https://p", &reference, Some(1)).unwrap();
    assert_eq!(db.row(&first.sap_id).charge.amount_minor, 50_000);
    assert!(db.open_link("https://p", &reference, None).is_ok());
    let err = db.open_link("https://p", &reference, None).unwrap_err();
    assert!(matches!(err, LinkError::Inactive));
    assert_eq!(db.charges.len(), 2);
    assert!(matches!(
        db.open_link("https://p", "nowhere", None),
        Err(LinkError::NotFound)
    ));
}

#[test]
fn amount_is_asked_for_before_uses_are_counted() {
    let mut db = tables();
    for quantity in [0, -1] {
        let reference = db.create_link(CreatePaymentLink {
            product_name: "Donation".into(),
            amount_minor: None,
            currency: None,
            quantity: Some(quantity),
        });
        let err = db.open_link("https://p", &reference, None).unwrap_err();
        assert!(matches!(err, LinkError::AmountRequired));
        let err = db.open_link("https://p", &reference, Some(0)).unwrap_err();
        assert!(matches!(err, LinkError::AmountRequired));
        let err = db.open_link("https://p", &reference, Some(700)).unwrap_err();
        assert!(matches!(err, LinkError::Inactive));
        assert_eq!(db.link(&reference).unwrap().quantity, Some(quantity));
    }
    assert_eq!(db.charges.len(), 0);
    // A link that was switched off says so first.
    db.links[0].status = "inactive".to_string();
    let reference = db.links[0].ref_.clone();
    let err = db.open_link("https://p", &reference, None).unwrap_err();
    assert!(matches!(err, LinkError::Inactive));
}

#[test]
fn link_errors_have_their_messages() {
    assert_eq!(LinkError::NotFound.message(), "payment link not found");
    assert_eq!(LinkError::Inactive.message(), "payment link is inactive");
    assert_eq!(
        LinkError::AmountRequired.message(),
        "amount is required for an open-amount link"
    );
    assert_eq!(LinkError::Db("x".to_string()).message(), "x");
    assert!(matches!(payment_link::minted(Reply::Duplicate), Err(LinkError::AmountRequired)));
    assert!(payment_link::minted(Reply::Done { rows: 1 }).is_ok());
}

// ---- reconciliation and fraud ----

#[test]
fn reconciliation_sums_only_settled_inflow() {
    let mut db = tables();

    // Two charges; only one gets a matching SMS.
    for (order_id, amt) in [("R-1", 30_000i64), ("R-2", 70_000)] {
        db.create_charge(CreateCharge {
            order_id: order_id.into(),
            amount_minor: amt,
            currency: "BDT".into(),
            customer_name: None,
            customer_msisdn: None,
            callback_url: None,
        })
        .unwrap();
    }

    db.ingest("bkash", "received Tk 300.00 from 01710000000. TrxID RC1")
        .unwrap();

    let all = reconcile::reconcile(&db.events, &db.claims(), None).unwrap();
    assert_eq!(all.total_settled_minor, 30_000);
    assert_eq!(all.settled_count, 1);
    assert_eq!(all.pending_charges, 1); // R-2 still pending
    assert_eq!(all.gateway, None);

    let bkash = reconcile::reconcile(&db.events, &db.claims(), Some("nagad")).unwrap();
    assert_eq!(bkash.total_settled_minor, 0, "no nagad inflow");
    assert_eq!(bkash.gateway.as_deref(), Some("nagad"));
    let own = reconcile::reconcile(&db.events, &db.claims(), Some("bkash")).unwrap();
    assert_eq!(own.total_settled_minor, 30_000);
    // What was settled is what the merchant is owed.
    assert_eq!(db.balance("merchant:receivable"), all.total_settled_minor);
}

#[test]
fn reconciliation_does_not_wrap() {
    let event = |amount_minor: i64| SmsEventView {
        id: String::new(),
        gateway: "bkash".to_string(),
        txn_id: String::new(),
        amount_minor,
        sender_msisdn: None,
        charge_id: None,
        matched: 1,
        received_at: String::new(),
    };
    let e = reconcile::reconcile(&vec![event(i64::MAX), event(1)], &Vec::new(), None).unwrap_err();
    assert_eq!(e.message(), "integer overflow");
    let r = reconcile::reconcile(&vec![event(i64::MAX)], &Vec::new(), None).unwrap();
    assert_eq!(r.total_settled_minor, i64::MAX);
}

#[test]
fn flags_sender_mismatch() {
    let mut db = tables();
    // Charge expects 019..., SMS is paid from 017... .
    db.create_charge(order("M-1", 50_000, Some("01900000000"))).unwrap();
    db.ingest("bkash", "received Tk 500.00 from 01710000000. TrxID MM1")
        .unwrap();

    let report = fraud::scan(&db.events, &db.claims());
    assert!(report.anomalies.iter().any(|a| a.kind == "sender_mismatch"));
    assert_eq!(report.anomaly_count, 1);
    assert_eq!(
        report.anomalies[0].detail,
        "paid by 01710000000, charge expected 01900000000"
    );
    assert_eq!(report.anomalies[0].severity, "medium");
}

#[test]
fn clean_traffic_has_no_anomalies() {
    let mut db = tables();
    db.create_charge(order("C-1", 50_000, Some("01710000000"))).unwrap();
    db.ingest("bkash", "received Tk 500.00 from 01710000000. TrxID CT1")
        .unwrap();

    let report = fraud::scan(&db.events, &db.claims());
    assert_eq!(report.anomaly_count, 0, "matching sender, no dup, one txn");
}

fn event(gateway: &str, txn_id: &str, amount_minor: i64, matched: i64) -> SmsEventView {
    SmsEventView {
        id: String::new(),
        gateway: gateway.to_string(),
        txn_id: txn_id.to_string(),
        amount_minor,
        sender_msisdn: None,
        charge_id: None,
        matched,
        received_at: String::new(),
    }
}

#[test]
fn flags_transaction_ids_on_several_gateways() {
    let events = vec![
        event("bkash", "A", 1, 0),
        event("bkash", "B", 1, 0),
        event("nagad", "B", 1, 0),
        event("nagad", "A2", 1, 0),
        event("rocket", "B", 1, 0),
    ];
    let report = fraud::scan(&events, &Vec::new());
    assert_eq!(report.anomaly_count, 1);
    let a = &report.anomalies[0];
    assert_eq!(a.kind, "duplicate_txid");
    assert_eq!(a.severity, "high");
    assert_eq!(a.detail, "txn_id seen on 3 different gateways");
    assert_eq!(a.txn_id.as_deref(), Some("B"));
    assert_eq!(a.charge_id, None);
}

#[test]
fn flags_amounts_far_above_the_average() {
    // Eleven events of 100 and one of 100000: the average is 8425, ten times it 84250.
    let mut events: Vec<SmsEventView> = Vec::new();
    for i in 0..11 {
        events.push(event("bkash", &format!("N{i}"), 100, 1));
    }
    events.push(event("bkash", "BIG", 100_000, 1));
    // An event that settled nothing does not count.
    events.push(event("bkash", "OTHER", 900_000, 0));
    let report = fraud::scan(&events, &Vec::new());
    assert_eq!(report.anomaly_count, 1);
    assert_eq!(report.anomalies[0].kind, "amount_anomaly");
    assert_eq!(
        report.anomalies[0].detail,
        "amount 100000 minor is >10× the average of 8425"
    );
    assert_eq!(report.anomalies[0].txn_id.as_deref(), Some("BIG"));
}

#[test]
fn four_events_are_too_few_for_a_norm() {
    let mut events: Vec<SmsEventView> = Vec::new();
    for i in 0..3 {
        events.push(event("bkash", &format!("N{i}"), 0, 1));
    }
    events.push(event("bkash", "BIG", 100_000, 1));
    assert_eq!(fraud::scan(&events, &Vec::new()).anomaly_count, 0);
}

#[test]
fn averages_round_half_away_from_zero() {
    // The average is 11/12 + ...: eleven of 1 and one of 12 sum to 23; 23/12 rounds to 2, and
    // ten times the average, 19.17, to 19.
    let mut events: Vec<SmsEventView> = Vec::new();
    for i in 0..11 {
        events.push(event("bkash", &format!("N{i}"), 1, 1));
    }
    events.push(event("bkash", "X", 12, 1));
    assert_eq!(fraud::scan(&events, &Vec::new()).anomaly_count, 0);
    events.push(event("bkash", "Y", 47, 1));
    // 70/13: ten times the average is 53.8, above 47.
    assert_eq!(fraud::scan(&events, &Vec::new()).anomaly_count, 0);
    for i in 0..20 {
        events.push(event("bkash", &format!("M{i}"), 1, 1));
    }
    // 90/33: ten times the average is 27.3.
    let report = fraud::scan(&events, &Vec::new());
    assert_eq!(report.anomaly_count, 1);
    assert_eq!(report.anomalies[0].detail, "amount 47 minor is >10× the average of 3");
}

#[test]
fn ledger_refuses_what_does_not_balance() {
    let debit = Entry::debit("a", 5, "BDT");
    let credit = Entry::credit("b", 4, "BDT");
    assert_eq!(credit.amount_minor, -4);
    let e = ledger::post("t", "r", "m", vec![debit.clone(), credit]).unwrap_err();
    assert_eq!(
        e.message(),
        "ledger transaction does not balance: entries sum to 1, expected 0"
    );
    let e = ledger::post("t", "r", "m", vec![debit.clone()]).unwrap_err();
    assert_eq!(e.message(), "ledger transaction needs at least two entries");
    let p = ledger::post("t", "r", "m", vec![debit, Entry::credit("b", 5, "BDT")]).unwrap();
    assert_eq!(p.txn_id, "t");
    assert_eq!(p.reference, "r");
    assert_eq!(p.memo, "m");
    assert_eq!(p.entries.len(), 2);
    assert_eq!(ledger::account_balance(&p.entries, "a").unwrap(), 5);
    assert_eq!(ledger::account_balance(&p.entries, "b").unwrap(), -5);
    assert_eq!(ledger::account_balance(&p.entries, "c").unwrap(), 0);
}

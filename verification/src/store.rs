//! What the engine asks of its database.
//!
//! The engine never talks to the database itself. It hands out [`Statement`]s, to be carried
//! out in the order in which they are given and no further than the first that fails, and it
//! is told of each how it went by a [`Reply`].

use crate::charge::{NewCharge, NewChargeView};
use crate::invoice::{NewInvoice, NewInvoiceView};
use crate::ledger::{Posting, PostingView};
use crate::sms::{SmsEvent, SmsRecord};
use crate::text::opt_view;
use crate::webhook::{DeliveryView, NewDelivery};
use vstd::prelude::*;

verus! {

/// One write to the tables that hold the money.
#[derive(Debug)]
pub enum Statement {
    /// Insert a charge, pending. Its order id must be new.
    InsertCharge(NewCharge),
    /// Insert an SMS event. Its gateway and transaction id together must be new.
    InsertSmsEvent(SmsEvent),
    /// Insert a ledger transaction and its entries, all or nothing.
    PostLedger(Posting),
    /// Set the status of this charge to paid.
    MarkChargePaid { id: String },
    /// Set the status of the unpaid invoices that are bound to this charge to paid.
    SettleInvoices { charge_id: String },
    /// Insert a webhook delivery, pending.
    EnqueueWebhook(NewDelivery),
    /// Set the chosen gateway of the pending charge with this public reference.
    SelectGateway { pay_ref: String, gateway: String },
    /// Set the claimed transaction of the pending charge with this public reference.
    ClaimTransaction { pay_ref: String, trx_id: String, sender: Option<String> },
    /// Insert an invoice, unpaid, and its items.
    InsertInvoice(NewInvoice),
    /// Bind this invoice to a charge and its public reference.
    BindInvoice { id: String, pay_ref: String, charge_id: String },
    /// Take one use off the payment link with this reference, if it has one left.
    ConsumeLink { reference: String },
}

/// The view of a [`Statement`].
pub enum StatementView {
    InsertCharge(NewChargeView),
    InsertSmsEvent(SmsRecord),
    PostLedger(PostingView),
    MarkChargePaid { id: Seq<char> },
    SettleInvoices { charge_id: Seq<char> },
    EnqueueWebhook(DeliveryView),
    SelectGateway { pay_ref: Seq<char>, gateway: Seq<char> },
    ClaimTransaction { pay_ref: Seq<char>, trx_id: Seq<char>, sender: Option<Seq<char>> },
    InsertInvoice(NewInvoiceView),
    BindInvoice { id: Seq<char>, pay_ref: Seq<char>, charge_id: Seq<char> },
    ConsumeLink { reference: Seq<char> },
}

impl View for Statement {
    type V = StatementView;

    open spec fn view(&self) -> StatementView {
        match self {
            Statement::InsertCharge(c) => StatementView::InsertCharge(c@),
            Statement::InsertSmsEvent(e) => StatementView::InsertSmsEvent(e@),
            Statement::PostLedger(p) => StatementView::PostLedger(p@),
            Statement::MarkChargePaid { id } => StatementView::MarkChargePaid { id: id@ },
            Statement::SettleInvoices { charge_id } => StatementView::SettleInvoices {
                charge_id: charge_id@,
            },
            Statement::EnqueueWebhook(d) => StatementView::EnqueueWebhook(d@),
            Statement::SelectGateway { pay_ref, gateway } => StatementView::SelectGateway {
                pay_ref: pay_ref@,
                gateway: gateway@,
            },
            Statement::ClaimTransaction { pay_ref, trx_id, sender } => StatementView::ClaimTransaction {
                pay_ref: pay_ref@,
                trx_id: trx_id@,
                sender: opt_view(*sender),
            },
            Statement::InsertInvoice(i) => StatementView::InsertInvoice(i@),
            Statement::BindInvoice { id, pay_ref, charge_id } => StatementView::BindInvoice {
                id: id@,
                pay_ref: pay_ref@,
                charge_id: charge_id@,
            },
            Statement::ConsumeLink { reference } => StatementView::ConsumeLink {
                reference: reference@,
            },
        }
    }
}

/// The views of a list of statements.
pub open spec fn plan_view(plan: Seq<Statement>) -> Seq<StatementView> {
    plan.map_values(|s: Statement| s@)
}

/// How a statement went.
#[derive(Debug)]
pub enum Reply {
    /// It was carried out and touched so many rows.
    Done { rows: u64 },
    /// It was refused, because the row it would insert is there already.
    Duplicate,
    /// It failed, with this message.
    Failed { message: String },
}

/// The view of a [`Reply`].
pub enum ReplyView {
    Done { rows: int },
    Duplicate,
    Failed { message: Seq<char> },
}

impl View for Reply {
    type V = ReplyView;

    open spec fn view(&self) -> ReplyView {
        match self {
            Reply::Done { rows } => ReplyView::Done { rows: *rows as int },
            Reply::Duplicate => ReplyView::Duplicate,
            Reply::Failed { message } => ReplyView::Failed { message: message@ },
        }
    }
}

} // verus!

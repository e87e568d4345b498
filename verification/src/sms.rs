//! Inbound SMS ingestion and reconciliation.
//!
//! A parsed transaction arrives; it is recorded idempotently (gateway and transaction id
//! together are the guard); if it matches an open charge by amount, that charge is settled
//! into the ledger. A replayed SMS stops at the idempotency check and never double-credits.
//!
//! Ingestion goes in steps, because the database and the extraction service answer in
//! between: [`ingest`] begins it, an [`Ingestion`] says what it waits for, and [`resume`] goes
//! on with the answer. A charge is settled only after its event was inserted.

use crate::books::{lemma_filter_filter, lemma_only_hit, lemma_two_hits};
use crate::charge;
use crate::charge::{settlement, Charge, ChargeError, ChargeErrorView, ChargeView};
use crate::crypto;
use crate::crypto::signature;
use crate::gateway::{
    reading_of, resolve, resolved, Gateway, ParseError, ParseErrorView, ParsedTxn, TxnView,
};
use crate::ids::{is_random_part, make_id, random_part};
use crate::store::{plan_view, Reply, ReplyView, Statement, StatementView};
use crate::text::{chars_of, digit, is_digit, opt_view, string_of};
use vstd::prelude::*;
use vstd::utf8::encode_utf8;

verus! {

/// Why an SMS was not ingested.
#[derive(Debug)]
pub enum IngestError {
    UnknownGateway,
    Parse(ParseError),
    /// This transaction was processed before.
    Duplicate,
    Charge(ChargeError),
    /// The database failed, with this message.
    Db(String),
}

/// The view of an [`IngestError`].
pub enum IngestErrorView {
    UnknownGateway,
    Parse(ParseErrorView),
    Duplicate,
    Charge(ChargeErrorView),
    Db(Seq<char>),
}

impl View for IngestError {
    type V = IngestErrorView;

    open spec fn view(&self) -> IngestErrorView {
        match self {
            IngestError::UnknownGateway => IngestErrorView::UnknownGateway,
            IngestError::Parse(e) => IngestErrorView::Parse(e@),
            IngestError::Duplicate => IngestErrorView::Duplicate,
            IngestError::Charge(e) => IngestErrorView::Charge(e@),
            IngestError::Db(message) => IngestErrorView::Db(message@),
        }
    }
}

impl IngestError {
    /// The message of this error.
    pub open spec fn message_text(self) -> Seq<char> {
        match self {
            IngestError::UnknownGateway => "unknown gateway"@,
            IngestError::Parse(e) => "could not parse SMS: "@ + e.message_text(),
            IngestError::Duplicate => "duplicate transaction (already processed)"@,
            IngestError::Charge(e) => e.message_text(),
            IngestError::Db(message) => message@,
        }
    }

    /// The message of this error.
    pub fn message(&self) -> (s: String)
        ensures
            s@ == self.message_text(),
    {
        match self {
            IngestError::UnknownGateway => "unknown gateway".to_owned(),
            IngestError::Parse(e) => {
                let mut s = "could not parse SMS: ".to_owned();
                let m = e.message();
                s.append(m.as_str());
                s
            },
            IngestError::Duplicate => "duplicate transaction (already processed)".to_owned(),
            IngestError::Charge(e) => e.message(),
            IngestError::Db(message) => message.clone(),
        }
    }
}

/// What ingesting an SMS came to.
#[derive(Debug)]
pub struct Ingested {
    pub sms_event_id: String,
    pub txn_id: String,
    pub matched_charge: Option<String>,
}

/// The view of an [`Ingested`].
#[verifier::ext_equal]
pub struct IngestedView {
    pub sms_event_id: Seq<char>,
    pub txn_id: Seq<char>,
    pub matched_charge: Option<Seq<char>>,
}

impl View for Ingested {
    type V = IngestedView;

    open spec fn view(&self) -> IngestedView {
        IngestedView {
            sms_event_id: self.sms_event_id@,
            txn_id: self.txn_id@,
            matched_charge: opt_view(self.matched_charge),
        }
    }
}

/// Dashboard-safe projection of an SMS event. It has no room for the audit fingerprint or
/// the raw body, which never leave the server.
#[derive(Debug)]
pub struct SmsEventView {
    pub id: String,
    pub gateway: String,
    pub txn_id: String,
    pub amount_minor: i64,
    pub sender_msisdn: Option<String>,
    pub charge_id: Option<String>,
    pub matched: i64,
    pub received_at: String,
}

// ---- reading ----

/// The audit fingerprint of a raw SMS.
pub open spec fn fingerprint(raw_body: Seq<char>) -> Seq<char> {
    signature(encode_utf8("sms-audit"@), encode_utf8(raw_body))
}

/// An SMS that was read.
#[derive(Debug)]
pub struct Reading {
    pub parsed: ParsedTxn,
    /// Who read it: the patterns or the extraction service.
    pub source: &'static str,
    pub raw_sha256: String,
}

/// The view of a [`Reading`].
#[verifier::ext_equal]
pub struct ReadingView {
    pub parsed: TxnView,
    pub source: Seq<char>,
    pub raw_sha256: Seq<char>,
}

impl View for Reading {
    type V = ReadingView;

    open spec fn view(&self) -> ReadingView {
        ReadingView { parsed: self.parsed@, source: self.source@, raw_sha256: self.raw_sha256@ }
    }
}

/// An SMS of a known gateway whose format the patterns do not know.
#[derive(Debug)]
pub struct Drifted {
    pub gateway: &'static str,
    pub raw_sha256: String,
    pub error: ParseError,
}

/// The view of a [`Drifted`].
#[verifier::ext_equal]
pub struct DriftedView {
    pub gateway: Seq<char>,
    pub raw_sha256: Seq<char>,
    pub error: ParseErrorView,
}

impl View for Drifted {
    type V = DriftedView;

    open spec fn view(&self) -> DriftedView {
        DriftedView { gateway: self.gateway@, raw_sha256: self.raw_sha256@, error: self.error@ }
    }
}

// ---- matching ----

/// A number for comparison: its digits, and of these the last ten, which are the
/// subscriber's part.
pub open spec fn normalized(raw: Seq<char>) -> Seq<char> {
    let digits = raw.filter(|c: char| is_digit(c));
    if digits.len() > 10 {
        digits.skip(digits.len() - 10)
    } else {
        digits
    }
}

/// Canonical MSISDN for comparison: digits only, last 10 (the subscriber part). It makes
/// "+8801712345678", "8801712345678" and "01712345678" compare equal, so that a number which
/// the merchant declared in any format matches the SMS sender's "01…" form.
pub fn normalize_msisdn(raw: &str) -> (r: String)
    ensures
        r@ == normalized(raw@),
{
    let v = chars_of(raw);
    let mut digits: Vec<char> = Vec::new();
    let mut i: usize = 0;
    let ghost keep = |c: char| is_digit(c);
    assert(raw@.take(0).filter(keep) =~= Seq::<char>::empty()) by {
        reveal(Seq::filter);
    }
    while i < v.len()
        invariant
            i <= v.len(),
            v@ == raw@,
            keep == (|c: char| is_digit(c)),
            digits@ == raw@.take(i as int).filter(keep),
        decreases v.len() - i,
    {
        let c = v[i];
        proof {
            raw@.take(i as int).lemma_filter_push(c, keep);
            assert(raw@.take(i + 1) =~= raw@.take(i as int).push(c));
        }
        if digit(c) {
            digits.push(c);
        }
        i = i + 1;
    }
    assert(raw@.take(raw@.len() as int) =~= raw@);
    let n = digits.len();
    let from: usize = if n > 10 {
        n - 10
    } else {
        0
    };
    let r = string_of(&digits, from, n);
    assert(r@ =~= normalized(raw@));
    r
}

/// A text of nothing but digits keeps all of them.
proof fn lemma_digits_stay(s: Seq<char>)
    requires
        forall|i: int| 0 <= i < s.len() ==> is_digit(#[trigger] s[i]),
    ensures
        s.filter(|c: char| is_digit(c)) =~= s,
    decreases s.len(),
{
    reveal(Seq::filter);
    if s.len() > 0 {
        lemma_digits_stay(s.drop_last());
    }
}

/// Normalizing a number that is normalized already changes nothing.
pub proof fn law_normalizing_is_idempotent(raw: Seq<char>)
    ensures
        normalized(normalized(raw)) == normalized(raw),
{
    let keep = |c: char| is_digit(c);
    assert forall|i: int| 0 <= i < normalized(raw).len() implies is_digit(
        #[trigger] normalized(raw)[i],
    ) by {
        let n = raw.filter(keep).len();
        raw.lemma_filter_pred(
            keep,
            if n > 10 {
                n - 10 + i
            } else {
                i
            },
        );
    }
    lemma_digits_stay(normalized(raw));
}

/// A country code in front of a full number makes no difference.
pub proof fn law_country_code_is_ignored(code: Seq<char>, number: Seq<char>)
    requires
        number.filter(|c: char| is_digit(c)).len() >= 10,
    ensures
        normalized(code + number) == normalized(number),
{
    let keep = |c: char| is_digit(c);
    Seq::filter_distributes_over_add(code, number, keep);
    let a = code.filter(keep);
    let b = number.filter(keep);
    assert((a + b).skip(a.len() + b.len() - 10) =~= b.skip(b.len() - 10));
    assert(b.skip(0) =~= b);
}

/// Spaces, dashes and other formatting between the digits make no difference.
pub proof fn law_formatting_is_ignored(front: Seq<char>, gap: Seq<char>, back: Seq<char>)
    requires
        forall|i: int| 0 <= i < gap.len() ==> !is_digit(#[trigger] gap[i]),
    ensures
        normalized(front + gap + back) == normalized(front + back),
{
    let keep = |c: char| is_digit(c);
    Seq::filter_distributes_over_add(front + gap, back, keep);
    Seq::filter_distributes_over_add(front, gap, keep);
    Seq::filter_distributes_over_add(front, back, keep);
    lemma_no_digits(gap);
    assert(front.filter(keep) + Seq::<char>::empty() =~= front.filter(keep));
}

/// A text without digits keeps nothing.
proof fn lemma_no_digits(s: Seq<char>)
    requires
        forall|i: int| 0 <= i < s.len() ==> !is_digit(#[trigger] s[i]),
    ensures
        s.filter(|c: char| is_digit(c)) =~= Seq::<char>::empty(),
    decreases s.len(),
{
    reveal(Seq::filter);
    if s.len() > 0 {
        lemma_no_digits(s.drop_last());
    }
}

/// What matching reads of a charge.
#[derive(Debug)]
pub struct ChargeClaim {
    pub id: String,
    pub amount_minor: i64,
    pub status: String,
    pub customer_msisdn: Option<String>,
}

/// The view of a [`ChargeClaim`].
#[verifier::ext_equal]
pub struct ClaimView {
    pub id: Seq<char>,
    pub amount_minor: int,
    pub status: Seq<char>,
    pub customer_msisdn: Option<Seq<char>>,
}

impl View for ChargeClaim {
    type V = ClaimView;

    open spec fn view(&self) -> ClaimView {
        ClaimView {
            id: self.id@,
            amount_minor: self.amount_minor as int,
            status: self.status@,
            customer_msisdn: opt_view(self.customer_msisdn),
        }
    }
}

/// The views of a list of claims.
pub open spec fn claims_view(rows: Seq<ChargeClaim>) -> Seq<ClaimView> {
    rows.map_values(|c: ChargeClaim| c@)
}

/// Whether a charge is pending and asks for this amount.
pub open spec fn is_open_for(amount: int) -> spec_fn(ClaimView) -> bool {
    |c: ClaimView| c.amount_minor == amount && c.status == "pending"@
}

/// Whether a charge declares the number whose normal form is `sender`.
pub open spec fn is_declared_by(sender: Seq<char>) -> spec_fn(ClaimView) -> bool {
    |c: ClaimView| c.customer_msisdn matches Some(m) && normalized(m) == sender
}

/// The pending charges for an amount.
pub open spec fn open_claims(rows: Seq<ClaimView>, amount: int) -> Seq<ClaimView> {
    rows.filter(is_open_for(amount))
}

/// The charge that a transaction settles: the only pending one for its amount; or, where
/// there are more, the only one of them that declares the transaction's sender.
pub open spec fn matching(rows: Seq<ClaimView>, txn: TxnView) -> Option<Seq<char>> {
    let claims = open_claims(rows, txn.amount_minor);
    if claims.len() == 0 {
        None
    } else if claims.len() == 1 {
        Some(claims[0].id)
    } else {
        match txn.sender_msisdn {
            None => None,
            Some(sender) => {
                let hits = claims.filter(is_declared_by(normalized(sender)));
                if hits.len() == 1 {
                    Some(hits[0].id)
                } else {
                    None
                }
            },
        }
    }
}

/// Find the one pending charge that this settlement belongs to, or none.
///
/// A charge settles only on an unambiguous match. When two customers have a pending charge
/// for the exact same amount, amount alone cannot tell them apart, so that the SMS sender is
/// held against the number which the merchant declared for each charge. If that still is not
/// a unique hit, nothing settles: it is never guessed which customer paid.
pub fn find_matching_charge(rows: &Vec<ChargeClaim>, parsed: &ParsedTxn) -> (r: Option<String>)
    ensures
        opt_view(r) == matching(claims_view(rows@), parsed@),
{
    let ghost all = claims_view(rows@);
    let ghost is_open = is_open_for(parsed.amount_minor as int);
    let mut open: Vec<usize> = Vec::new();
    let mut i: usize = 0;
    assert(all.take(0).filter(is_open) =~= Seq::<ClaimView>::empty()) by {
        reveal(Seq::filter);
    }
    while i < rows.len()
        invariant
            i <= rows.len(),
            all == claims_view(rows@),
            is_open == is_open_for(parsed.amount_minor as int),
            open.len() == all.take(i as int).filter(is_open).len(),
            forall|k: int|
                0 <= k < open.len() ==> #[trigger] open@[k] < rows.len() && all[open@[k] as int]
                    == all.take(i as int).filter(is_open)[k],
        decreases rows.len() - i,
    {
        proof {
            all.take(i as int).lemma_filter_push(all[i as int], is_open);
            assert(all.take(i + 1) =~= all.take(i as int).push(all[i as int]));
        }
        if rows[i].amount_minor == parsed.amount_minor && rows[i].status.as_str().eq("pending") {
            open.push(i);
        }
        i = i + 1;
    }
    let ghost claims = open_claims(all, parsed.amount_minor as int);
    assert(all.take(all.len() as int) =~= all);
    if open.len() == 0 {
        return None;
    }
    if open.len() == 1 {
        assert(all[open@[0] as int] == claims[0]);
        return Some(rows[open[0]].id.clone());
    }
    let sender = match &parsed.sender_msisdn {
        Some(s) => normalize_msisdn(s.as_str()),
        None => {
            return None;
        },
    };
    let ghost declares = is_declared_by(sender@);
    let mut hits: Vec<usize> = Vec::new();
    let mut j: usize = 0;
    assert(claims.take(0).filter(declares) =~= Seq::<ClaimView>::empty()) by {
        reveal(Seq::filter);
    }
    while j < open.len()
        invariant
            j <= open.len(),
            all == claims_view(rows@),
            open.len() == claims.len(),
            forall|k: int|
                0 <= k < open.len() ==> #[trigger] open@[k] < rows.len() && all[open@[k] as int]
                    == claims[k],
            declares == is_declared_by(sender@),
            hits.len() == claims.take(j as int).filter(declares).len(),
            forall|k: int|
                0 <= k < hits.len() ==> #[trigger] hits@[k] < rows.len() && all[hits@[k] as int]
                    == claims.take(j as int).filter(declares)[k],
        decreases open.len() - j,
    {
        let at = open[j];
        proof {
            claims.take(j as int).lemma_filter_push(claims[j as int], declares);
            assert(claims.take(j + 1) =~= claims.take(j as int).push(claims[j as int]));
            assert(claims[j as int] == rows@[at as int]@);
        }
        let declared = match &rows[at].customer_msisdn {
            Some(m) => {
                let n = normalize_msisdn(m.as_str());
                n.as_str().eq(sender.as_str())
            },
            None => false,
        };
        if declared {
            hits.push(at);
        }
        j = j + 1;
    }
    assert(claims.take(claims.len() as int) =~= claims);
    if hits.len() == 1 {
        assert(all[hits@[0] as int] == claims.filter(declares)[0]);
        Some(rows[hits[0]].id.clone())
    } else {
        None
    }
}

// ---- recording ----

/// An SMS event to be inserted.
#[derive(Debug)]
pub struct SmsEvent {
    pub id: String,
    pub gateway: &'static str,
    pub txn_id: String,
    pub amount_minor: i64,
    pub sender_msisdn: Option<String>,
    pub charge_id: Option<String>,
    pub raw_sha256: String,
    pub matched: i64,
    pub parse_source: &'static str,
}

/// The view of an [`SmsEvent`].
#[verifier::ext_equal]
pub struct SmsRecord {
    pub id: Seq<char>,
    pub gateway: Seq<char>,
    pub txn_id: Seq<char>,
    pub amount_minor: int,
    pub sender_msisdn: Option<Seq<char>>,
    pub charge_id: Option<Seq<char>>,
    pub raw_sha256: Seq<char>,
    pub matched: int,
    pub parse_source: Seq<char>,
}

impl View for SmsEvent {
    type V = SmsRecord;

    open spec fn view(&self) -> SmsRecord {
        SmsRecord {
            id: self.id@,
            gateway: self.gateway@,
            txn_id: self.txn_id@,
            amount_minor: self.amount_minor as int,
            sender_msisdn: opt_view(self.sender_msisdn),
            charge_id: opt_view(self.charge_id),
            raw_sha256: self.raw_sha256@,
            matched: self.matched as int,
            parse_source: self.parse_source@,
        }
    }
}

/// The event of a transaction: what it says, the charge that it settles, and who read it.
pub open spec fn event_of(
    txn: TxnView,
    source: Seq<char>,
    raw_sha256: Seq<char>,
    rows: Seq<ClaimView>,
    random: Seq<char>,
) -> SmsRecord {
    SmsRecord {
        id: "sms_"@ + random,
        gateway: txn.gateway,
        txn_id: txn.txn_id,
        amount_minor: txn.amount_minor,
        sender_msisdn: txn.sender_msisdn,
        charge_id: matching(rows, txn),
        raw_sha256,
        matched: if matching(rows, txn) is Some {
            1
        } else {
            0
        },
        parse_source: source,
    }
}

/// The event of an SMS that was read, with a given random part of its identifier.
pub fn record_with(random: &str, reading: Reading, rows: &Vec<ChargeClaim>) -> (e: SmsEvent)
    ensures
        e@ == event_of(
            reading.parsed@,
            reading.source@,
            reading.raw_sha256@,
            claims_view(rows@),
            random@,
        ),
{
    let charge_id = find_matching_charge(rows, &reading.parsed);
    let matched: i64 = if charge_id.is_some() {
        1
    } else {
        0
    };
    SmsEvent {
        id: make_id("sms_", random),
        gateway: reading.parsed.gateway,
        txn_id: reading.parsed.txn_id,
        amount_minor: reading.parsed.amount_minor,
        sender_msisdn: reading.parsed.sender_msisdn,
        charge_id,
        raw_sha256: reading.raw_sha256,
        matched,
        parse_source: reading.source,
    }
}

// ---- ingestion ----

/// What the ingestion of an SMS waits for.
#[derive(Debug)]
pub enum Ingestion {
    /// The extraction service is to be asked for the fields of this SMS.
    Extract(Drifted),
    /// The charges that are pending for the amount of this SMS are to be listed.
    ListClaims(Reading),
    /// This event is to be inserted.
    Insert(SmsEvent),
    /// The charge that the event settles is to be looked up.
    LoadCharge(Ingested),
    /// The statement of this plan at this place is to be carried out.
    Settle { plan: Vec<Statement>, next: usize, ingested: Ingested },
    /// Nothing any more: the SMS is ingested.
    Finished(Ingested),
    /// Nothing any more: the SMS was refused, or something failed.
    Refused(IngestError),
}

/// The view of an [`Ingestion`].
pub enum IngestionView {
    Extract(DriftedView),
    ListClaims(ReadingView),
    Insert(SmsRecord),
    LoadCharge(IngestedView),
    Settle { plan: Seq<StatementView>, next: int, ingested: IngestedView },
    Finished(IngestedView),
    Refused(IngestErrorView),
}

impl View for Ingestion {
    type V = IngestionView;

    open spec fn view(&self) -> IngestionView {
        match self {
            Ingestion::Extract(d) => IngestionView::Extract(d@),
            Ingestion::ListClaims(reading) => IngestionView::ListClaims(reading@),
            Ingestion::Insert(e) => IngestionView::Insert(e@),
            Ingestion::LoadCharge(i) => IngestionView::LoadCharge(i@),
            Ingestion::Settle { plan, next, ingested } => IngestionView::Settle {
                plan: plan_view(plan@),
                next: *next as int,
                ingested: ingested@,
            },
            Ingestion::Finished(i) => IngestionView::Finished(i@),
            Ingestion::Refused(e) => IngestionView::Refused(e@),
        }
    }
}

impl Ingestion {
    /// Whether the statement that is waited for is in its plan.
    pub open spec fn wf(&self) -> bool {
        match self {
            Ingestion::Settle { plan, next, .. } => *next < plan@.len(),
            _ => true,
        }
    }
}

/// What comes back to an ingestion.
#[derive(Debug)]
pub enum Answer {
    /// What the extraction service made of the SMS.
    Extracted(Option<ParsedTxn>),
    /// The charges that were listed.
    Claims(Vec<ChargeClaim>),
    /// The charge that was looked up, if it was found.
    Found(Option<Charge>),
    /// How a statement, a listing or a look-up went.
    Replied(Reply),
}

/// The view of an [`Answer`].
pub enum AnswerView {
    Extracted(Option<TxnView>),
    Claims(Seq<ClaimView>),
    Found(Option<ChargeView>),
    Replied(ReplyView),
}

impl View for Answer {
    type V = AnswerView;

    open spec fn view(&self) -> AnswerView {
        match self {
            Answer::Extracted(t) => AnswerView::Extracted(
                match t {
                    Some(txn) => Some(txn@),
                    None => None,
                },
            ),
            Answer::Claims(rows) => AnswerView::Claims(claims_view(rows@)),
            Answer::Found(c) => AnswerView::Found(
                match c {
                    Some(charge) => Some(charge@),
                    None => None,
                },
            ),
            Answer::Replied(reply) => AnswerView::Replied(reply@),
        }
    }
}

/// The random parts of the identifiers that one ingestion uses.
#[verifier::ext_equal]
pub struct Randoms {
    pub event: Seq<char>,
    pub ltx: Seq<char>,
    pub whd: Seq<char>,
}

/// How the ingestion of an SMS begins.
pub open spec fn begun(gw: Seq<char>, raw_body: Seq<char>) -> IngestionView {
    match resolved(gw) {
        None => IngestionView::Refused(IngestErrorView::UnknownGateway),
        Some(name) => match reading_of(name, raw_body) {
            Ok(parsed) => IngestionView::ListClaims(
                ReadingView { parsed, source: "regex"@, raw_sha256: fingerprint(raw_body) },
            ),
            Err(error) => IngestionView::Extract(
                DriftedView { gateway: name, raw_sha256: fingerprint(raw_body), error },
            ),
        },
    }
}

/// What is told of an event that was inserted.
pub open spec fn told_of(e: SmsRecord) -> IngestedView {
    IngestedView { sms_event_id: e.id, txn_id: e.txn_id, matched_charge: e.charge_id }
}

/// How an ingestion goes on after its event was sent to the database. A transaction that is
/// there already ends it: no charge is settled.
pub open spec fn inserted(e: SmsRecord, reply: ReplyView) -> IngestionView {
    match reply {
        ReplyView::Done { .. } => if e.charge_id is Some {
            IngestionView::LoadCharge(told_of(e))
        } else {
            IngestionView::Finished(told_of(e))
        },
        ReplyView::Duplicate => IngestionView::Refused(IngestErrorView::Duplicate),
        ReplyView::Failed { message } => IngestionView::Refused(IngestErrorView::Db(message)),
    }
}

/// How an ingestion goes on. Where the extraction service makes nothing of an SMS, the error
/// of the patterns stands. An answer that is not waited for changes nothing.
pub open spec fn resumed(s: IngestionView, a: AnswerView, randoms: Randoms) -> IngestionView {
    match (s, a) {
        (IngestionView::Extract(d), AnswerView::Extracted(Some(parsed))) => {
            IngestionView::ListClaims(
                ReadingView { parsed, source: "ai"@, raw_sha256: d.raw_sha256 },
            )
        },
        (IngestionView::Extract(d), AnswerView::Extracted(None)) => IngestionView::Refused(
            IngestErrorView::Parse(d.error),
        ),
        (IngestionView::ListClaims(reading), AnswerView::Claims(rows)) => IngestionView::Insert(
            event_of(reading.parsed, reading.source, reading.raw_sha256, rows, randoms.event),
        ),
        (
            IngestionView::ListClaims(_),
            AnswerView::Replied(ReplyView::Failed { message }),
        ) => IngestionView::Refused(IngestErrorView::Db(message)),
        (IngestionView::Insert(e), AnswerView::Replied(reply)) => inserted(e, reply),
        (IngestionView::LoadCharge(ingested), AnswerView::Found(Some(c))) => {
            IngestionView::Settle {
                plan: settlement(c, randoms.ltx, randoms.whd),
                next: 0,
                ingested,
            }
        },
        (IngestionView::LoadCharge(_), AnswerView::Found(None)) => IngestionView::Refused(
            IngestErrorView::Charge(ChargeErrorView::NotFound),
        ),
        (
            IngestionView::LoadCharge(_),
            AnswerView::Replied(ReplyView::Failed { message }),
        ) => IngestionView::Refused(IngestErrorView::Charge(ChargeErrorView::Db(message))),
        (
            IngestionView::Settle { plan, next, ingested },
            AnswerView::Replied(ReplyView::Done { .. }),
        ) => {
            if next + 1 < plan.len() {
                IngestionView::Settle { plan, next: next + 1, ingested }
            } else {
                IngestionView::Finished(ingested)
            }
        },
        (IngestionView::Settle { .. }, AnswerView::Replied(ReplyView::Duplicate)) => {
            IngestionView::Refused(
                IngestErrorView::Charge(ChargeErrorView::Db("unique violation"@)),
            )
        },
        (
            IngestionView::Settle { .. },
            AnswerView::Replied(ReplyView::Failed { message }),
        ) => IngestionView::Refused(IngestErrorView::Charge(ChargeErrorView::Db(message))),
        _ => s,
    }
}

/// Begin to ingest a raw SMS for the named gateway. The patterns come first; where they do
/// not apply, the extraction service is to be asked.
pub fn ingest(gw: &str, raw_body: &str) -> (r: Ingestion)
    ensures
        r@ == begun(gw@, raw_body@),
        r.wf(),
{
    let raw_sha256 = crypto::sign("sms-audit".as_bytes(), raw_body.as_bytes());
    let gateway = match resolve(gw) {
        Some(g) => g,
        None => {
            return Ingestion::Refused(IngestError::UnknownGateway);
        },
    };
    let name = gateway.id();
    match gateway.parse_sms(raw_body) {
        Ok(parsed) => Ingestion::ListClaims(Reading { parsed, source: "regex", raw_sha256 }),
        Err(error) => Ingestion::Extract(Drifted { gateway: name, raw_sha256, error }),
    }
}

/// Go on after an event was sent to the database.
fn after_insert(event: SmsEvent, reply: Reply) -> (r: Ingestion)
    ensures
        r@ == inserted(event@, reply@),
        r.wf(),
{
    match reply {
        Reply::Done { .. } => {
            let settles = event.charge_id.is_some();
            let ingested = Ingested {
                sms_event_id: event.id,
                txn_id: event.txn_id,
                matched_charge: event.charge_id,
            };
            if settles {
                Ingestion::LoadCharge(ingested)
            } else {
                Ingestion::Finished(ingested)
            }
        },
        Reply::Duplicate => Ingestion::Refused(IngestError::Duplicate),
        Reply::Failed { message } => Ingestion::Refused(IngestError::Db(message)),
    }
}

/// Go on with an ingestion, with given random parts of the identifiers that it uses.
pub fn resume_with(
    event: &str,
    ltx: &str,
    whd: &str,
    state: Ingestion,
    answer: Answer,
) -> (r: Ingestion)
    requires
        state.wf(),
        answer matches Answer::Found(Some(charge)) ==> charge.amount_minor > i64::MIN,
    ensures
        r@ == resumed(state@, answer@, Randoms { event: event@, ltx: ltx@, whd: whd@ }),
        r.wf(),
{
    match (state, answer) {
        (Ingestion::Extract(d), Answer::Extracted(extracted)) => match extracted {
            Some(parsed) => Ingestion::ListClaims(
                Reading { parsed, source: "ai", raw_sha256: d.raw_sha256 },
            ),
            None => Ingestion::Refused(IngestError::Parse(d.error)),
        },
        (Ingestion::ListClaims(reading), Answer::Claims(rows)) => Ingestion::Insert(
            record_with(event, reading, &rows),
        ),
        (
            Ingestion::ListClaims(_),
            Answer::Replied(Reply::Failed { message }),
        ) => Ingestion::Refused(IngestError::Db(message)),
        (Ingestion::Insert(e), Answer::Replied(reply)) => after_insert(e, reply),
        (Ingestion::LoadCharge(ingested), Answer::Found(row)) => match charge::get(row) {
            Ok(c) => match charge::mark_paid_with(ltx, whd, &c) {
                Ok(plan) => {
                    assert(plan_view(plan@).len() == plan@.len());
                    Ingestion::Settle { plan, next: 0, ingested }
                },
                Err(e) => Ingestion::Refused(IngestError::Charge(e)),
            },
            Err(e) => Ingestion::Refused(IngestError::Charge(e)),
        },
        (
            Ingestion::LoadCharge(_),
            Answer::Replied(Reply::Failed { message }),
        ) => Ingestion::Refused(IngestError::Charge(ChargeError::Db(message))),
        (Ingestion::Settle { plan, next, ingested }, Answer::Replied(reply)) => {
            match charge::settled(reply) {
                Ok(()) => {
                    if plan.len() - next > 1 {
                        Ingestion::Settle { plan, next: next + 1, ingested }
                    } else {
                        Ingestion::Finished(ingested)
                    }
                },
                Err(e) => Ingestion::Refused(IngestError::Charge(e)),
            }
        },
        (other, _) => other,
    }
}

/// Go on with an ingestion, under fresh identifiers.
pub fn resume(state: Ingestion, answer: Answer) -> (r: Ingestion)
    requires
        state.wf(),
        answer matches Answer::Found(Some(charge)) ==> charge.amount_minor > i64::MIN,
    ensures
        exists|randoms: Randoms|
            is_random_part(randoms.event) && is_random_part(randoms.ltx) && is_random_part(
                randoms.whd,
            ) && r@ == #[trigger] resumed(state@, answer@, randoms),
        r.wf(),
{
    let event = random_part();
    let ltx = random_part();
    let whd = random_part();
    let r = resume_with(event.as_str(), ltx.as_str(), whd.as_str(), state, answer);
    assert(r@ == resumed(
        state@,
        answer@,
        Randoms { event: event@, ltx: ltx@, whd: whd@ },
    ));
    r
}

// ---- laws ----

/// A number of ten digits or less, with nothing in between, is kept as it is.
pub proof fn law_short_number_is_kept(digits: Seq<char>)
    requires
        digits.len() <= 10,
        forall|i: int| 0 <= i < digits.len() ==> '0' <= #[trigger] digits[i] && digits[i] <= '9',
    ensures
        normalized(digits) == digits,
{
    lemma_digits_stay(digits);
}

/// Whether a row is the one that a transaction pays: it is pending for the amount; and no
/// other is, or the sender is known and is the number that this row declares, and no other of
/// them does.
pub open spec fn is_only_claim(rows: Seq<ClaimView>, txn: TxnView, i: int) -> bool {
    let sender = normalized(txn.sender_msisdn.unwrap());
    &&& 0 <= i < rows.len()
    &&& rows[i].status == "pending"@
    &&& rows[i].amount_minor == txn.amount_minor
    &&& forall|j: int|
        0 <= j < rows.len() && j != i && (#[trigger] rows[j]).status == "pending"@
            && rows[j].amount_minor == txn.amount_minor ==> {
            &&& txn.sender_msisdn is Some
            &&& rows[i].customer_msisdn is Some
            &&& normalized(rows[i].customer_msisdn.unwrap()) == sender
            &&& rows[j].customer_msisdn is Some ==> normalized(rows[j].customer_msisdn.unwrap())
                != sender
        }
}

/// A transaction settles the row that it pays, wherever there is one.
pub proof fn law_only_claim_is_matched(rows: Seq<ClaimView>, txn: TxnView, i: int)
    requires
        is_only_claim(rows, txn, i),
    ensures
        matching(rows, txn) == Some(rows[i].id),
{
    let is_open = is_open_for(txn.amount_minor);
    assert(is_open(rows[i]));
    if forall|j: int| 0 <= j < rows.len() && j != i ==> !is_open(#[trigger] rows[j]) {
        lemma_one_passes(rows, is_open, i);
    } else {
        let j = choose|j: int| 0 <= j < rows.len() && j != i && is_open(#[trigger] rows[j]);
        let declares = is_declared_by(normalized(txn.sender_msisdn.unwrap()));
        let claims = rows.filter(is_open);
        if i < j {
            lemma_two_hits(rows, is_open, i, j);
        } else {
            lemma_two_hits(rows, is_open, j, i);
        }
        let both = |c: ClaimView| is_open(c) && declares(c);
        assert forall|k: int| 0 <= k < rows.len() && k != i implies !both(#[trigger] rows[k]) by {}
        assert(both(rows[i]));
        lemma_one_passes(rows, both, i);
        lemma_filter_filter(rows, is_open, declares);
    }
}

/// A transaction that settles a charge pays the row of that charge: where no row is the one
/// that it pays, nothing settles.
pub proof fn law_match_is_the_only_claim(rows: Seq<ClaimView>, txn: TxnView)
    ensures
        matching(rows, txn) is Some <==> exists|i: int| #[trigger] is_only_claim(rows, txn, i),
        matching(rows, txn) matches Some(id) ==> exists|i: int|
            #[trigger] is_only_claim(rows, txn, i) && rows[i].id == id,
{
    let is_open = is_open_for(txn.amount_minor);
    let claims = rows.filter(is_open);
    if exists|i: int| #[trigger] is_only_claim(rows, txn, i) {
        let i = choose|i: int| #[trigger] is_only_claim(rows, txn, i);
        law_only_claim_is_matched(rows, txn, i);
    }
    if matching(rows, txn) is Some {
        if claims.len() == 1 {
            let i = lemma_only_hit(rows, is_open);
            assert forall|j: int|
                0 <= j < rows.len() && j != i implies !((#[trigger] rows[j]).status == "pending"@
                && rows[j].amount_minor == txn.amount_minor) by {
                assert(!is_open(rows[j]));
            }
            assert(is_only_claim(rows, txn, i));
        } else {
            let declares = is_declared_by(normalized(txn.sender_msisdn.unwrap()));
            let both = |c: ClaimView| is_open(c) && declares(c);
            lemma_filter_filter(rows, is_open, declares);
            let i = lemma_only_hit(rows, both);
            assert forall|j: int|
                0 <= j < rows.len() && j != i && (#[trigger] rows[j]).status == "pending"@
                    && rows[j].amount_minor == txn.amount_minor && rows[j].customer_msisdn is Some
                implies normalized(rows[j].customer_msisdn.unwrap()) != normalized(
                txn.sender_msisdn.unwrap(),
            ) by {
                assert(is_open(rows[j]));
                assert(!both(rows[j]));
            }
            assert(is_only_claim(rows, txn, i));
        }
    }
}

/// One element that passes a filter alone is all that it leaves.
proof fn lemma_one_passes(s: Seq<ClaimView>, p: spec_fn(ClaimView) -> bool, i: int)
    requires
        0 <= i < s.len(),
        p(s[i]),
        forall|j: int| 0 <= j < s.len() && j != i ==> !p(#[trigger] s[j]),
    ensures
        s.filter(p) =~= seq![s[i]],
    decreases s.len(),
{
    reveal(Seq::filter);
    let t = s.drop_last();
    if i < t.len() {
        lemma_one_passes(t, p, i);
        assert(!p(s[s.len() - 1]));
    } else {
        lemma_none_passes(t, p);
    }
}

/// A filter that nothing passes leaves nothing.
proof fn lemma_none_passes(s: Seq<ClaimView>, p: spec_fn(ClaimView) -> bool)
    requires
        forall|j: int| 0 <= j < s.len() ==> !p(#[trigger] s[j]),
    ensures
        s.filter(p) =~= Seq::<ClaimView>::empty(),
    decreases s.len(),
{
    reveal(Seq::filter);
    if s.len() > 0 {
        lemma_none_passes(s.drop_last(), p);
        assert(!p(s[s.len() - 1]));
    }
}

/// An event says of a transaction what the SMS said, and is matched exactly if it names the
/// charge that the transaction settles.
pub proof fn law_event_tells_the_transaction(
    txn: TxnView,
    source: Seq<char>,
    raw_sha256: Seq<char>,
    rows: Seq<ClaimView>,
    random: Seq<char>,
)
    ensures
        ({
            let e = event_of(txn, source, raw_sha256, rows, random);
            &&& e.gateway == txn.gateway && e.txn_id == txn.txn_id
            &&& e.amount_minor == txn.amount_minor
            &&& e.sender_msisdn == txn.sender_msisdn
            &&& e.raw_sha256 == raw_sha256 && e.parse_source == source
            &&& e.charge_id == matching(rows, txn)
            &&& e.charge_id is Some ==> e.matched == 1
            &&& e.charge_id is None ==> e.matched == 0
        }),
{
}

/// The fingerprint of an SMS is its code in hexadecimal, so that the same text has the same
/// one, and the text itself is not kept.
pub proof fn law_fingerprint_is_the_code(raw_body: Seq<char>)
    ensures
        crypto::unhex(fingerprint(raw_body)) == Some(
            crypto::hmac_sha256(encode_utf8("sms-audit"@), encode_utf8(raw_body)),
        ),
{
    crypto::law_hex_round_trip(
        crypto::hmac_sha256(encode_utf8("sms-audit"@), encode_utf8(raw_body)),
    );
}

/// An ingestion begins with the gateway's own reading, with the extraction service where that
/// fails, and not at all where the gateway is not known.
pub proof fn law_patterns_come_first(gw: Seq<char>, raw_body: Seq<char>)
    ensures
        resolved(gw) is None <==> begun(gw, raw_body) == IngestionView::Refused(
            IngestErrorView::UnknownGateway,
        ),
        resolved(gw) matches Some(name) && reading_of(name, raw_body) is Ok ==> (begun(
            gw,
            raw_body,
        ) matches IngestionView::ListClaims(reading) && Ok::<TxnView, ParseErrorView>(
            reading.parsed,
        ) == reading_of(resolved(gw).unwrap(), raw_body) && reading.source == "regex"@
            && reading.raw_sha256 == fingerprint(raw_body)),
        resolved(gw) matches Some(name) && reading_of(name, raw_body) is Err ==> (begun(
            gw,
            raw_body,
        ) matches IngestionView::Extract(d) && Err::<TxnView, ParseErrorView>(d.error)
            == reading_of(resolved(gw).unwrap(), raw_body) && Some(d.gateway) == resolved(gw)
            && d.raw_sha256 == fingerprint(raw_body)),
{
}

/// What the extraction service recovered is ingested like what the patterns read; where it
/// recovered nothing, the error of the patterns stands.
pub proof fn law_recovered_sms_is_ingested(
    d: DriftedView,
    recovered: Option<TxnView>,
    randoms: Randoms,
)
    ensures
        ({
            let s = resumed(
                IngestionView::Extract(d),
                AnswerView::Extracted(recovered),
                randoms,
            );
            &&& recovered matches Some(txn) ==> (s matches IngestionView::ListClaims(reading)
                && reading.parsed == txn && reading.source == "ai"@ && reading.raw_sha256
                == d.raw_sha256)
            &&& recovered is None ==> s == IngestionView::Refused(IngestErrorView::Parse(d.error))
        }),
{
}

/// A charge is looked up for settlement exactly after its event was inserted: never after a
/// duplicate or a failure, and always after an insertion that matched one.
pub proof fn law_only_inserted_events_settle(e: SmsRecord, a: AnswerView, randoms: Randoms)
    ensures
        ({
            let s = resumed(IngestionView::Insert(e), a, randoms);
            let done = a matches AnswerView::Replied(reply) && reply is Done;
            &&& s is LoadCharge <==> done && e.charge_id is Some
            &&& s is Finished <==> done && e.charge_id is None
            &&& s matches IngestionView::LoadCharge(i) ==> i.matched_charge == e.charge_id
                && i.sms_event_id == e.id && i.txn_id == e.txn_id
            &&& s matches IngestionView::Finished(i) ==> i.matched_charge == e.charge_id
                && i.sms_event_id == e.id && i.txn_id == e.txn_id
            &&& a matches AnswerView::Replied(ReplyView::Duplicate) ==> s
                == IngestionView::Refused(IngestErrorView::Duplicate)
            &&& !(s is Settle)
        }),
{
}

/// Whatever an ingestion waits for, a failure of the database ends it, with the message.
pub proof fn law_failure_ends_an_ingestion(
    s: IngestionView,
    message: Seq<char>,
    randoms: Randoms,
)
    ensures
        ({
            let s2 = resumed(s, AnswerView::Replied(ReplyView::Failed { message }), randoms);
            &&& s is ListClaims || s is Insert ==> s2 == IngestionView::Refused(
                IngestErrorView::Db(message),
            )
            &&& s is LoadCharge || s is Settle ==> s2 == IngestionView::Refused(
                IngestErrorView::Charge(ChargeErrorView::Db(message)),
            )
            &&& s is Extract || s is Finished || s is Refused ==> s2 == s
        }),
{
}

/// A settlement is carried out statement by statement, and is finished after the last, no
/// earlier.
pub proof fn law_settlement_is_carried_out_whole(
    plan: Seq<StatementView>,
    next: int,
    ingested: IngestedView,
    rows: int,
    randoms: Randoms,
)
    ensures
        ({
            let s = resumed(
                IngestionView::Settle { plan, next, ingested },
                AnswerView::Replied(ReplyView::Done { rows }),
                randoms,
            );
            &&& next < plan.len() - 1 ==> s == (IngestionView::Settle {
                plan,
                next: next + 1,
                ingested,
            })
            &&& next >= plan.len() - 1 ==> s == IngestionView::Finished(ingested)
        }),
{
}

/// The charges that were listed decide what is inserted: the event of what was read, with the
/// charge that it settles among them.
pub proof fn law_listed_charges_decide(
    reading: ReadingView,
    rows: Seq<ClaimView>,
    randoms: Randoms,
)
    ensures
        resumed(
            IngestionView::ListClaims(reading),
            AnswerView::Claims(rows),
            randoms,
        ) matches IngestionView::Insert(e) && {
            &&& e.charge_id == matching(rows, reading.parsed)
            &&& e.txn_id == reading.parsed.txn_id
            &&& e.gateway == reading.parsed.gateway
            &&& e.amount_minor == reading.parsed.amount_minor
            &&& e.sender_msisdn == reading.parsed.sender_msisdn
            &&& e.parse_source == reading.source
            &&& e.raw_sha256 == reading.raw_sha256
        },
{
}

/// The charge that was looked up is settled, from the first statement of its settlement on; a
/// charge that is missing ends the ingestion.
pub proof fn law_found_charge_is_settled(
    ingested: IngestedView,
    row: Option<ChargeView>,
    randoms: Randoms,
)
    ensures
        ({
            let s = resumed(IngestionView::LoadCharge(ingested), AnswerView::Found(row), randoms);
            &&& row matches Some(c) ==> s == (IngestionView::Settle {
                plan: settlement(c, randoms.ltx, randoms.whd),
                next: 0,
                ingested,
            })
            &&& row is None ==> s == IngestionView::Refused(
                IngestErrorView::Charge(ChargeErrorView::NotFound),
            )
        }),
{
}

/// An ingestion that fails says why: in the words of what failed, where something else did.
pub proof fn law_what_errors_say(parse: ParseError, charge: ChargeError, message: String)
    ensures
        IngestError::UnknownGateway.message_text() == "unknown gateway"@,
        IngestError::Parse(parse).message_text() == "could not parse SMS: "@
            + parse.message_text(),
        IngestError::Duplicate.message_text() == "duplicate transaction (already processed)"@,
        IngestError::Charge(charge).message_text() == charge.message_text(),
        IngestError::Db(message).message_text() == message@,
{
}

} // verus!

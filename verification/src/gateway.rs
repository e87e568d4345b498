//! Payment gateways.
//!
//! Each mobile financial service implements [`Gateway`]. For the SMS-based methods (bKash,
//! Nagad) the core work is parsing the confirmation SMS into a normalized [`ParsedTxn`]. New
//! gateways are added by implementing the trait; the engine core never changes.

use crate::money::{
    law_amount_is_the_nearest, law_digits_are_taka, law_what_an_amount_is, minor_of, read_minor,
};
use crate::text::{
    all_digits, chars_of, digit, is_digit, lower_text, lowered, number_of, occurs, opt_view,
};
use vstd::arithmetic::power::pow;
use vstd::prelude::*;

verus! {

/// What a confirmation SMS says, in one form for every gateway.
#[derive(Debug, Clone, PartialEq)]
pub struct ParsedTxn {
    pub gateway: &'static str,
    pub txn_id: String,
    pub amount_minor: i64,
    pub sender_msisdn: Option<String>,
}

/// The view of a [`ParsedTxn`].
#[verifier::ext_equal]
pub struct TxnView {
    pub gateway: Seq<char>,
    pub txn_id: Seq<char>,
    pub amount_minor: int,
    pub sender_msisdn: Option<Seq<char>>,
}

impl View for ParsedTxn {
    type V = TxnView;

    open spec fn view(&self) -> TxnView {
        TxnView {
            gateway: self.gateway@,
            txn_id: self.txn_id@,
            amount_minor: self.amount_minor as int,
            sender_msisdn: opt_view(self.sender_msisdn),
        }
    }
}

/// Why an SMS could not be parsed.
#[derive(Debug, PartialEq)]
pub enum ParseError {
    /// The SMS does not have the form of the named gateway.
    NoMatch(&'static str),
    /// The amount is not a number.
    BadAmount,
}

/// The view of a [`ParseError`].
pub enum ParseErrorView {
    NoMatch(Seq<char>),
    BadAmount,
}

impl View for ParseError {
    type V = ParseErrorView;

    open spec fn view(&self) -> ParseErrorView {
        match self {
            ParseError::NoMatch(gateway) => ParseErrorView::NoMatch(gateway@),
            ParseError::BadAmount => ParseErrorView::BadAmount,
        }
    }
}

impl ParseError {
    /// The message of this error.
    pub open spec fn message_text(self) -> Seq<char> {
        match self {
            ParseError::NoMatch(gateway) => "SMS did not match the "@ + gateway@ + " format"@,
            ParseError::BadAmount => "could not parse amount from SMS"@,
        }
    }

    /// The message of this error.
    pub fn message(&self) -> (s: String)
        ensures
            s@ == self.message_text(),
    {
        match self {
            ParseError::NoMatch(gateway) => {
                let mut s = "SMS did not match the ".to_owned();
                s.append(gateway);
                s.append(" format");
                s
            },
            ParseError::BadAmount => "could not parse amount from SMS".to_owned(),
        }
    }
}

/// The view of what parsing gives.
pub open spec fn outcome_view(r: Result<ParsedTxn, ParseError>) -> Result<TxnView, ParseErrorView> {
    match r {
        Ok(txn) => Ok(txn@),
        Err(e) => Err(e@),
    }
}

/// A mobile financial service whose confirmation SMS can be read.
pub trait Gateway {
    /// The identifier of this gateway.
    spec fn name(&self) -> Seq<char>;

    /// What this gateway reads in an SMS.
    spec fn reading(&self, body: Seq<char>) -> Result<TxnView, ParseErrorView>;

    /// The identifier of this gateway.
    fn id(&self) -> (r: &'static str)
        ensures
            r@ == self.name(),
    ;

    /// Best-effort structured extraction from a raw confirmation SMS.
    fn parse_sms(&self, body: &str) -> (r: Result<ParsedTxn, ParseError>)
        ensures
            outcome_view(r) == self.reading(body@),
    ;
}

// ---- amounts ----

/// The characters of a numeral: digits and the point.
pub open spec fn in_numeral(c: char) -> bool {
    is_digit(c) || c == '.'
}

/// What an amount in an SMS comes to in poisha: its digits and point, read as taka.
pub open spec fn sms_amount(raw: Seq<char>) -> Option<int> {
    minor_of(raw.filter(|c: char| in_numeral(c)))
}

/// "1,234.56" | "500" | "1500.00" in minor units (poisha). BDT has 2 decimals; a numeral
/// with more goes to the nearest poisha.
pub fn amount_to_minor(raw: &str) -> (r: Result<i64, ParseError>)
    ensures
        r is Ok <==> sms_amount(raw@) is Some,
        r matches Ok(n) ==> sms_amount(raw@) == Some(n as int),
        r matches Err(e) ==> e == ParseError::BadAmount,
{
    let v = chars_of(raw);
    let mut cleaned = String::new();
    let mut i: usize = 0;
    let ghost keep = |c: char| in_numeral(c);
    assert(raw@.take(0).filter(keep) =~= Seq::<char>::empty()) by {
        reveal(Seq::filter);
    }
    while i < v.len()
        invariant
            i <= v.len(),
            v@ == raw@,
            keep == (|c: char| in_numeral(c)),
            cleaned@ == raw@.take(i as int).filter(keep),
        decreases v.len() - i,
    {
        let c = v[i];
        proof {
            raw@.take(i as int).lemma_filter_push(c, keep);
            assert(raw@.take(i + 1) =~= raw@.take(i as int).push(c));
        }
        if digit(c) || c == '.' {
            cleaned.push(c);
        }
        i = i + 1;
    }
    assert(raw@.take(raw@.len() as int) =~= raw@);
    match read_minor(cleaned.as_str()) {
        Some(n) => Ok(n),
        None => Err(ParseError::BadAmount),
    }
}

// ---- patterns ----

/// What the first group of a regular expression captures in a text, at its leftmost match;
/// none where the expression is not one, does not match, or leaves the group out.
pub uninterp spec fn first_group(pattern: Seq<char>, text: Seq<char>) -> Option<Seq<char>>;

/// `regex::Regex::new`, `captures` and `get(1)`: the text of the first capture group at the
/// leftmost match, which is a part of the searched text. It depends on the pattern and the
/// text alone.
#[verifier::external_body]
fn capture(pattern: &str, text: &str) -> (r: Option<String>)
    ensures
        opt_view(r) == first_group(pattern@, text@),
        r matches Some(group) ==> occurs(text@, group@),
{
    regex::Regex::new(pattern).ok()?.captures(text)?.get(1).map(|m| m.as_str().to_owned())
}

/// The transaction id in a bKash SMS.
pub const BKASH_TXID: &'static str = r"(?i)TrxID[:\s]+([A-Z0-9]+)";

/// The received amount in a bKash SMS.
pub const BKASH_AMOUNT: &'static str = r"(?i)(?:received|Tk\.?)\s*Tk?\.?\s*([\d,]+(?:\.\d+)?)";

/// The sender's number in a bKash SMS.
pub const BKASH_SENDER: &'static str = r"(?i)from\s+(01\d{9})";

/// The transaction id in a Nagad SMS.
pub const NAGAD_TXID: &'static str = r"(?i)(?:TxnID|TrxID)[:\s]+([A-Z0-9]+)";

/// The received amount in a Nagad SMS.
pub const NAGAD_AMOUNT: &'static str = r"(?i)Amount[:\s]+Tk\.?\s*([\d,]+(?:\.\d+)?)";

/// The sender's number in a Nagad SMS.
pub const NAGAD_SENDER: &'static str = r"(?i)Sender[:\s]+(01\d{9})";

/// What a gateway makes of the three fields that its patterns captured. Without a
/// transaction id or an amount the SMS is not of this gateway; without a sender it still is.
pub open spec fn assembled(
    gateway: Seq<char>,
    txn_id: Option<Seq<char>>,
    amount: Option<Seq<char>>,
    sender: Option<Seq<char>>,
) -> Result<TxnView, ParseErrorView> {
    match (txn_id, amount) {
        (Some(id), Some(raw)) => match sms_amount(raw) {
            Some(n) => Ok(
                TxnView { gateway, txn_id: id, amount_minor: n, sender_msisdn: sender },
            ),
            None => Err(ParseErrorView::BadAmount),
        },
        _ => Err(ParseErrorView::NoMatch(gateway)),
    }
}

/// What a gateway makes of the three fields that its patterns captured.
pub fn assemble(
    gateway: &'static str,
    txn_id: Option<String>,
    amount: Option<String>,
    sender: Option<String>,
) -> (r: Result<ParsedTxn, ParseError>)
    ensures
        outcome_view(r) == assembled(gateway@, opt_view(txn_id), opt_view(amount), opt_view(sender)),
{
    let txn_id = match txn_id {
        Some(t) => t,
        None => {
            return Err(ParseError::NoMatch(gateway));
        },
    };
    let amount = match amount {
        Some(a) => a,
        None => {
            return Err(ParseError::NoMatch(gateway));
        },
    };
    match amount_to_minor(amount.as_str()) {
        Ok(amount_minor) => Ok(
            ParsedTxn { gateway, txn_id, amount_minor, sender_msisdn: sender },
        ),
        Err(e) => Err(e),
    }
}

/// What bKash reads in an SMS.
pub open spec fn bkash_reading(body: Seq<char>) -> Result<TxnView, ParseErrorView> {
    assembled(
        "bkash"@,
        first_group(BKASH_TXID@, body),
        first_group(BKASH_AMOUNT@, body),
        first_group(BKASH_SENDER@, body),
    )
}

/// What Nagad reads in an SMS.
pub open spec fn nagad_reading(body: Seq<char>) -> Result<TxnView, ParseErrorView> {
    assembled(
        "nagad"@,
        first_group(NAGAD_TXID@, body),
        first_group(NAGAD_AMOUNT@, body),
        first_group(NAGAD_SENDER@, body),
    )
}

/// bKash.
pub struct Bkash;

impl Gateway for Bkash {
    open spec fn name(&self) -> Seq<char> {
        "bkash"@
    }

    open spec fn reading(&self, body: Seq<char>) -> Result<TxnView, ParseErrorView> {
        bkash_reading(body)
    }

    fn id(&self) -> (r: &'static str) {
        "bkash"
    }

    fn parse_sms(&self, body: &str) -> (r: Result<ParsedTxn, ParseError>)
        ensures
            r matches Ok(txn) ==> occurs(body@, txn.txn_id@),
            r matches Ok(txn) ==> (txn.sender_msisdn matches Some(s) ==> occurs(body@, s@)),
    {
        let txn_id = capture(BKASH_TXID, body);
        let amount = capture(BKASH_AMOUNT, body);
        let sender = capture(BKASH_SENDER, body);
        assemble("bkash", txn_id, amount, sender)
    }
}

/// Nagad.
pub struct Nagad;

impl Gateway for Nagad {
    open spec fn name(&self) -> Seq<char> {
        "nagad"@
    }

    open spec fn reading(&self, body: Seq<char>) -> Result<TxnView, ParseErrorView> {
        nagad_reading(body)
    }

    fn id(&self) -> (r: &'static str) {
        "nagad"
    }

    fn parse_sms(&self, body: &str) -> (r: Result<ParsedTxn, ParseError>)
        ensures
            r matches Ok(txn) ==> occurs(body@, txn.txn_id@),
            r matches Ok(txn) ==> (txn.sender_msisdn matches Some(s) ==> occurs(body@, s@)),
    {
        let txn_id = capture(NAGAD_TXID, body);
        let amount = capture(NAGAD_AMOUNT, body);
        let sender = capture(NAGAD_SENDER, body);
        assemble("nagad", txn_id, amount, sender)
    }
}

/// The gateway that an identifier names, in any case of letters.
pub open spec fn resolved(gateway: Seq<char>) -> Option<Seq<char>> {
    if lowered(gateway) == "bkash"@ {
        Some("bkash"@)
    } else if lowered(gateway) == "nagad"@ {
        Some("nagad"@)
    } else {
        None
    }
}

/// What the gateway of a given name reads in an SMS.
pub open spec fn reading_of(name: Seq<char>, body: Seq<char>) -> Result<TxnView, ParseErrorView> {
    if name == "bkash"@ {
        bkash_reading(body)
    } else {
        nagad_reading(body)
    }
}

/// Resolve a gateway by its sender/shortcode identifier.
pub fn resolve(gateway: &str) -> (r: Option<Box<dyn Gateway>>)
    ensures
        r is Some <==> resolved(gateway@) is Some,
        r matches Some(g) ==> {
            &&& resolved(gateway@) == Some(g.name())
            &&& forall|body: Seq<char>| #[trigger] g.reading(body) == reading_of(g.name(), body)
        },
{
    let name = lower_text(gateway);
    proof {
        reveal_strlit("bkash");
        reveal_strlit("nagad");
        assert("bkash"@[0] != "nagad"@[0]);
    }
    if name.as_str().eq("bkash") {
        Some(Box::new(Bkash))
    } else if name.as_str().eq("nagad") {
        Some(Box::new(Nagad))
    } else {
        None
    }
}

// ---- laws ----

/// Whatever stands between the digits and the point of an amount, such as a comma that groups
/// them, makes no difference.
pub proof fn law_grouping_is_dropped(front: Seq<char>, gap: Seq<char>, back: Seq<char>)
    requires
        forall|i: int|
            0 <= i < gap.len() ==> !('0' <= #[trigger] gap[i] && gap[i] <= '9') && gap[i] != '.',
    ensures
        sms_amount(front + gap + back) == sms_amount(front + back),
{
    let keep = |c: char| in_numeral(c);
    Seq::filter_distributes_over_add(front + gap, back, keep);
    Seq::filter_distributes_over_add(front, gap, keep);
    Seq::filter_distributes_over_add(front, back, keep);
    lemma_none_kept(gap);
    assert(front.filter(keep) + Seq::<char>::empty() =~= front.filter(keep));
}

/// A comma in an amount makes no difference.
pub proof fn law_comma_is_dropped(front: Seq<char>, back: Seq<char>)
    ensures
        sms_amount(front + seq![','] + back) == sms_amount(front + back),
{
    law_grouping_is_dropped(front, seq![','], back);
}

/// A text without digits and points keeps nothing.
proof fn lemma_none_kept(s: Seq<char>)
    requires
        forall|i: int| 0 <= i < s.len() ==> !in_numeral(#[trigger] s[i]),
    ensures
        s.filter(|c: char| in_numeral(c)) =~= Seq::<char>::empty(),
    decreases s.len(),
{
    reveal(Seq::filter);
    if s.len() > 0 {
        lemma_none_kept(s.drop_last());
        assert(!in_numeral(s[s.len() - 1]));
    }
}

/// A text of nothing but digits and points keeps all of them.
proof fn lemma_all_kept(s: Seq<char>)
    requires
        forall|i: int| 0 <= i < s.len() ==> in_numeral(#[trigger] s[i]),
    ensures
        s.filter(|c: char| in_numeral(c)) =~= s,
    decreases s.len(),
{
    reveal(Seq::filter);
    if s.len() > 0 {
        lemma_all_kept(s.drop_last());
        assert(in_numeral(s[s.len() - 1]));
    }
}

/// Digits without a point are whole taka: a hundred poisha each.
pub proof fn law_whole_amount_is_taka(d: Seq<char>)
    requires
        d.len() > 0,
        forall|i: int| 0 <= i < d.len() ==> '0' <= #[trigger] d[i] && d[i] <= '9',
    ensures
        sms_amount(d) == Some(
            if 100 * number_of(d) <= i64::MAX {
                100 * number_of(d)
            } else {
                i64::MAX as int
            },
        ),
{
    lemma_all_kept(d);
    law_digits_are_taka(d);
}

/// Digits with a point come to the nearest poisha, half of one counting as one.
pub proof fn law_decimal_amount_is_the_nearest(w: Seq<char>, f: Seq<char>) -> (exact: int)
    requires
        all_digits(w),
        all_digits(f),
        w.len() + f.len() > 0,
    ensures
        sms_amount(w + seq!['.'] + f) == Some(
            if exact <= i64::MAX {
                exact
            } else {
                i64::MAX as int
            },
        ),
        2 * pow(10, f.len()) * exact <= 200 * number_of(w + f) + pow(10, f.len()) < 2 * pow(
            10,
            f.len(),
        ) * (exact + 1),
{
    let s = w + seq!['.'] + f;
    assert forall|i: int| 0 <= i < s.len() implies in_numeral(#[trigger] s[i]) by {
        if i < w.len() {
            assert(s[i] == w[i]);
        } else if i > w.len() {
            assert(s[i] == f[i - w.len() - 1]);
        }
    }
    lemma_all_kept(s);
    law_amount_is_the_nearest(w, f)
}

/// A text of digits and points is no amount exactly if it has two points or no digit.
pub proof fn law_bad_amount_is_refused(s: Seq<char>)
    requires
        forall|i: int|
            0 <= i < s.len() ==> ('0' <= #[trigger] s[i] && s[i] <= '9') || s[i] == '.',
    ensures
        sms_amount(s) is None <==> {
            ||| exists|i: int, j: int|
                0 <= i < j < s.len() && #[trigger] s[i] == '.' && #[trigger] s[j] == '.'
            ||| forall|i: int| 0 <= i < s.len() ==> #[trigger] s[i] == '.'
        },
{
    lemma_all_kept(s);
    law_what_an_amount_is(s);
}

/// A transaction is made of what was captured: its id and its sender as they stand, its amount
/// in poisha. Without a sender it is one all the same; without an id or an amount the SMS is
/// not the gateway's; and an amount that is none is told apart.
pub proof fn law_transaction_is_what_was_captured(
    gateway: Seq<char>,
    txn_id: Option<Seq<char>>,
    amount: Option<Seq<char>>,
    sender: Option<Seq<char>>,
)
    ensures
        ({
            let r = assembled(gateway, txn_id, amount, sender);
            &&& r is Ok <==> txn_id is Some && amount is Some && sms_amount(amount.unwrap()) is Some
            &&& r matches Ok(t) ==> {
                &&& t.gateway == gateway
                &&& Some(t.txn_id) == txn_id
                &&& Some(t.amount_minor) == sms_amount(amount.unwrap())
                &&& t.sender_msisdn == sender
            }
            &&& r == Err::<TxnView, ParseErrorView>(ParseErrorView::NoMatch(gateway)) <==> txn_id
                is None || amount is None
        }),
{
}

/// What each gateway looks for in an SMS.
pub proof fn law_gateways_look_for_their_own_fields(body: Seq<char>)
    ensures
        bkash_reading(body) == assembled(
            "bkash"@,
            first_group(r"(?i)TrxID[:\s]+([A-Z0-9]+)"@, body),
            first_group(r"(?i)(?:received|Tk\.?)\s*Tk?\.?\s*([\d,]+(?:\.\d+)?)"@, body),
            first_group(r"(?i)from\s+(01\d{9})"@, body),
        ),
        nagad_reading(body) == assembled(
            "nagad"@,
            first_group(r"(?i)(?:TxnID|TrxID)[:\s]+([A-Z0-9]+)"@, body),
            first_group(r"(?i)Amount[:\s]+Tk\.?\s*([\d,]+(?:\.\d+)?)"@, body),
            first_group(r"(?i)Sender[:\s]+(01\d{9})"@, body),
        ),
        reading_of("bkash"@, body) == bkash_reading(body),
        reading_of("nagad"@, body) == nagad_reading(body),
{
    reveal_strlit("bkash");
    reveal_strlit("nagad");
    assert("bkash"@[0] != "nagad"@[0]);
}

/// Whether two texts are the same but for the case of their ASCII letters.
pub open spec fn same_but_case(s: Seq<char>, t: Seq<char>) -> bool {
    &&& s.len() == t.len()
    &&& forall|i: int|
        #![trigger s[i]]
        0 <= i < s.len() ==> {
            ||| s[i] == t[i]
            ||| 'A' <= s[i] && s[i] <= 'Z' && t[i] as int == s[i] as int + 32
            ||| 'A' <= t[i] && t[i] <= 'Z' && s[i] as int == t[i] as int + 32
        }
}

/// A gateway is known by its name in any case of letters, and by nothing else.
pub proof fn law_gateway_is_known_by_its_name(gateway: Seq<char>)
    ensures
        resolved(gateway) == Some("bkash"@) <==> same_but_case(gateway, "bkash"@),
        resolved(gateway) == Some("nagad"@) <==> same_but_case(gateway, "nagad"@),
        resolved(gateway) is None <==> !same_but_case(gateway, "bkash"@) && !same_but_case(
            gateway,
            "nagad"@,
        ),
{
    reveal_strlit("bkash");
    reveal_strlit("nagad");
    assert("bkash"@[0] != "nagad"@[0]);
    lemma_lowered_is(gateway, "bkash"@);
    lemma_lowered_is(gateway, "nagad"@);
}

/// A text that is lower case is what those that are the same but for case come to.
proof fn lemma_lowered_is(s: Seq<char>, t: Seq<char>)
    requires
        forall|i: int| 0 <= i < t.len() ==> 'a' <= #[trigger] t[i] && t[i] <= 'z',
    ensures
        lowered(s) == t <==> same_but_case(s, t),
{
    if lowered(s) == t {
        assert forall|i: int|
            #![trigger s[i]]
            0 <= i < s.len() implies s[i] == t[i] || ('A' <= s[i] && s[i] <= 'Z' && t[i] as int
            == s[i] as int + 32) by {
            assert(lowered(s)[i] == t[i]);
        }
    }
    if same_but_case(s, t) {
        assert forall|i: int| 0 <= i < s.len() implies #[trigger] lowered(s)[i] == t[i] by {
            let c = s[i];
            assert('a' <= t[i] && t[i] <= 'z');
        }
        assert(lowered(s) =~= t);
    }
}

/// The message of an SMS that did not match names the gateway.
pub proof fn law_what_errors_say(gateway: &'static str)
    ensures
        ParseError::NoMatch(gateway).message_text() == "SMS did not match the "@ + gateway@
            + " format"@,
        ParseError::BadAmount.message_text() == "could not parse amount from SMS"@,
{
}

} // verus!

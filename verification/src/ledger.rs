//! Double-entry ledger.
//!
//! Every settlement is written as a ledger transaction with two or more signed entries.
//! Debits are positive, credits negative; a valid transaction's entries sum to zero. The
//! ledger is append-only: corrections are new compensating transactions, never edits.

use crate::text::{signed_decimal, signed_text};
use vstd::prelude::*;

verus! {

/// One signed line of a transaction.
#[derive(Debug, Clone)]
pub struct Entry {
    pub account: String,
    pub amount_minor: i64,
    pub currency: String,
}

/// The view of an [`Entry`].
#[verifier::ext_equal]
pub struct EntryView {
    pub account: Seq<char>,
    pub amount_minor: int,
    pub currency: Seq<char>,
}

impl View for Entry {
    type V = EntryView;

    open spec fn view(&self) -> EntryView {
        EntryView {
            account: self.account@,
            amount_minor: self.amount_minor as int,
            currency: self.currency@,
        }
    }
}

/// The views of a list of entries.
pub open spec fn entries_view(v: Seq<Entry>) -> Seq<EntryView> {
    v.map_values(|e: Entry| e@)
}

impl Entry {
    /// Money into `account`.
    pub fn debit(account: &str, amount_minor: i64, currency: &str) -> (e: Self)
        ensures
            e@ == (EntryView {
                account: account@,
                amount_minor: amount_minor as int,
                currency: currency@,
            }),
    {
        Entry { account: account.to_owned(), amount_minor, currency: currency.to_owned() }
    }

    /// Money out of `account`.
    pub fn credit(account: &str, amount_minor: i64, currency: &str) -> (e: Self)
        requires
            amount_minor > i64::MIN,
        ensures
            e@ == (EntryView {
                account: account@,
                amount_minor: -(amount_minor as int),
                currency: currency@,
            }),
    {
        Entry { account: account.to_owned(), amount_minor: -amount_minor, currency: currency.to_owned() }
    }
}

/// Why a transaction is not written.
#[derive(Debug)]
pub enum LedgerError {
    /// The entries do not sum to zero but to this.
    Unbalanced(i64),
    /// A transaction needs at least two entries.
    TooFewEntries,
    /// The database failed, with this message.
    Db(String),
}

impl LedgerError {
    /// The message of this error.
    pub open spec fn message_text(self) -> Seq<char> {
        match self {
            LedgerError::Unbalanced(sum) => "ledger transaction does not balance: entries sum to "@
                + signed_decimal(sum as int) + ", expected 0"@,
            LedgerError::TooFewEntries => "ledger transaction needs at least two entries"@,
            LedgerError::Db(message) => message@,
        }
    }

    /// The message of this error.
    pub fn message(&self) -> (s: String)
        ensures
            s@ == self.message_text(),
    {
        match self {
            LedgerError::Unbalanced(sum) => {
                let mut s = "ledger transaction does not balance: entries sum to ".to_owned();
                let n = signed_text(*sum);
                s.append(n.as_str());
                s.append(", expected 0");
                s
            },
            LedgerError::TooFewEntries => "ledger transaction needs at least two entries".to_owned(),
            LedgerError::Db(message) => message.clone(),
        }
    }
}

/// The sum of a list of entries.
pub open spec fn total(entries: Seq<EntryView>) -> int
    decreases entries.len(),
{
    if entries.len() == 0 {
        0
    } else {
        total(entries.drop_last()) + entries.last().amount_minor
    }
}

/// The balance of an account over a list of entries.
pub open spec fn balance(entries: Seq<EntryView>, account: Seq<char>) -> int
    decreases entries.len(),
{
    if entries.len() == 0 {
        0
    } else {
        balance(entries.drop_last(), account) + if entries.last().account == account {
            entries.last().amount_minor
        } else {
            0
        }
    }
}

/// Whether the running sum of a list of entries never leaves an `i64`.
pub open spec fn sums_fit(entries: Seq<EntryView>) -> bool {
    forall|k: int|
        0 <= k <= entries.len() ==> i64::MIN <= #[trigger] total(entries.take(k)) <= i64::MAX
}

/// Whether the running balance of an account never leaves an `i64`.
pub open spec fn balances_fit(entries: Seq<EntryView>, account: Seq<char>) -> bool {
    forall|k: int|
        0 <= k <= entries.len() ==> i64::MIN <= #[trigger] balance(entries.take(k), account)
            <= i64::MAX
}

/// A transaction that is fit to be written: all of it, or nothing.
#[derive(Debug)]
pub struct Posting {
    pub txn_id: String,
    pub reference: String,
    pub memo: String,
    pub entries: Vec<Entry>,
}

/// The view of a [`Posting`].
#[verifier::ext_equal]
pub struct PostingView {
    pub txn_id: Seq<char>,
    pub reference: Seq<char>,
    pub memo: Seq<char>,
    pub entries: Seq<EntryView>,
}

impl View for Posting {
    type V = PostingView;

    open spec fn view(&self) -> PostingView {
        PostingView {
            txn_id: self.txn_id@,
            reference: self.reference@,
            memo: self.memo@,
            entries: entries_view(self.entries@),
        }
    }
}

/// Whether a transaction has two entries or more and they sum to zero.
pub open spec fn balanced(p: PostingView) -> bool {
    p.entries.len() >= 2 && total(p.entries) == 0
}

/// Check a transaction before it is written. What is handed on is balanced; it is for the
/// caller to write the transaction and its entries together, so that a partial write can
/// never leave the ledger unbalanced.
pub fn post(txn_id: &str, reference: &str, memo: &str, entries: Vec<Entry>) -> (r: Result<
    Posting,
    LedgerError,
>)
    requires
        sums_fit(entries_view(entries@)),
    ensures
        ({
            let posting = PostingView {
                txn_id: txn_id@,
                reference: reference@,
                memo: memo@,
                entries: entries_view(entries@),
            };
            match r {
                Ok(p) => p@ == posting && balanced(posting),
                Err(LedgerError::TooFewEntries) => entries@.len() < 2,
                Err(LedgerError::Unbalanced(sum)) => entries@.len() >= 2 && sum != 0 && sum
                    == total(posting.entries),
                Err(LedgerError::Db(_)) => false,
            }
        }),
{
    if entries.len() < 2 {
        return Err(LedgerError::TooFewEntries);
    }
    let ghost all = entries_view(entries@);
    let mut sum: i64 = 0;
    let mut i: usize = 0;
    assert(all.take(0) =~= Seq::<EntryView>::empty());
    while i < entries.len()
        invariant
            i <= entries.len(),
            all == entries_view(entries@),
            sums_fit(all),
            sum == total(all.take(i as int)),
        decreases entries.len() - i,
    {
        proof {
            assert(all.take(i + 1).drop_last() =~= all.take(i as int));
            assert(all.take(i + 1).last() == entries@[i as int]@);
            assert(i64::MIN <= total(all.take(i + 1)) <= i64::MAX);
        }
        sum = sum + entries[i].amount_minor;
        i = i + 1;
    }
    assert(all.take(all.len() as int) =~= all);
    if sum != 0 {
        return Err(LedgerError::Unbalanced(sum));
    }
    Ok(
        Posting {
            txn_id: txn_id.to_owned(),
            reference: reference.to_owned(),
            memo: memo.to_owned(),
            entries,
        },
    )
}

/// Current balance of an account: the sum of its signed entries. A sum that leaves an `i64`
/// on the way is an error.
pub fn account_balance(entries: &Vec<Entry>, account: &str) -> (r: Result<i64, LedgerError>)
    ensures
        r is Ok <==> balances_fit(entries_view(entries@), account@),
        r matches Ok(n) ==> n == balance(entries_view(entries@), account@),
        r matches Err(e) ==> e.message_text() == "integer overflow"@,
{
    let ghost all = entries_view(entries@);
    let mut sum: i64 = 0;
    let mut i: usize = 0;
    assert(all.take(0) =~= Seq::<EntryView>::empty());
    while i < entries.len()
        invariant
            i <= entries.len(),
            all == entries_view(entries@),
            sum == balance(all.take(i as int), account@),
            forall|k: int|
                0 <= k <= i ==> i64::MIN <= #[trigger] balance(all.take(k), account@) <= i64::MAX,
        decreases entries.len() - i,
    {
        proof {
            assert(all.take(i + 1).drop_last() =~= all.take(i as int));
            assert(all.take(i + 1).last() == entries@[i as int]@);
        }
        if entries[i].account.as_str().eq(account) {
            match sum.checked_add(entries[i].amount_minor) {
                Some(next) => {
                    sum = next;
                },
                None => {
                    assert(!balances_fit(all, account@)) by {
                        let b = balance(all.take(i + 1), account@);
                        assert(!(i64::MIN <= b <= i64::MAX));
                    }
                    return Err(LedgerError::Db("integer overflow".to_owned()));
                },
            }
        }
        i = i + 1;
    }
    assert(all.take(all.len() as int) =~= all);
    Ok(sum)
}

// ---- laws ----

/// The entries of several transactions in one list.
pub open spec fn all_entries(postings: Seq<PostingView>) -> Seq<EntryView>
    decreases postings.len(),
{
    if postings.len() == 0 {
        seq![]
    } else {
        all_entries(postings.drop_last()) + postings.last().entries
    }
}

/// Sums and balances of two lists of entries add up.
pub proof fn lemma_total_add(a: Seq<EntryView>, b: Seq<EntryView>, account: Seq<char>)
    ensures
        total(a + b) == total(a) + total(b),
        balance(a + b, account) == balance(a, account) + balance(b, account),
    decreases b.len(),
{
    if b.len() == 0 {
        assert(a + b =~= a);
    } else {
        lemma_total_add(a, b.drop_last(), account);
        assert((a + b).drop_last() =~= a + b.drop_last());
        assert((a + b).last() == b.last());
    }
}

/// However many balanced transactions are written, the ledger as a whole sums to zero.
pub proof fn law_ledger_nets_to_zero(postings: Seq<PostingView>)
    requires
        forall|i: int| 0 <= i < postings.len() ==> balanced(#[trigger] postings[i]),
    ensures
        total(all_entries(postings)) == 0,
    decreases postings.len(),
{
    if postings.len() > 0 {
        let rest = postings.drop_last();
        assert forall|i: int| 0 <= i < rest.len() implies balanced(#[trigger] rest[i]) by {
            assert(rest[i] == postings[i]);
        }
        law_ledger_nets_to_zero(rest);
        assert(balanced(postings[postings.len() - 1]));
        lemma_total_add(all_entries(rest), postings.last().entries, seq![]);
    }
}

/// A debit of one account and a credit of another, of the same amount, are balanced.
pub proof fn law_debit_and_credit_balance(
    debit: Seq<char>,
    credit: Seq<char>,
    amount: int,
    currency: Seq<char>,
)
    ensures
        total(
            seq![
                EntryView { account: debit, amount_minor: amount, currency },
                EntryView { account: credit, amount_minor: -amount, currency },
            ],
        ) == 0,
{
    let d = EntryView { account: debit, amount_minor: amount, currency };
    let c = EntryView { account: credit, amount_minor: -amount, currency };
    reveal_with_fuel(total, 3);
    assert(seq![d, c].drop_last() =~= seq![d]);
    assert(seq![d].drop_last() =~= Seq::<EntryView>::empty());
}

/// An entry adds its amount to the sum, and to the balance of its own account alone.
pub proof fn law_entry_counts_for_its_account(
    entries: Seq<EntryView>,
    e: EntryView,
    account: Seq<char>,
)
    ensures
        total(entries.push(e)) == total(entries) + e.amount_minor,
        e.account == account ==> balance(entries.push(e), account) == balance(entries, account)
            + e.amount_minor,
        e.account != account ==> balance(entries.push(e), account) == balance(entries, account),
        total(Seq::empty()) == 0,
        balance(Seq::empty(), account) == 0,
{
    assert(entries.push(e).drop_last() =~= entries);
}

/// A transaction is balanced exactly if it has two entries or more and they sum to zero, and
/// any two entries that cancel each other make one.
pub proof fn law_what_balances(p: PostingView)
    ensures
        balanced(p) <==> p.entries.len() >= 2 && total(p.entries) == 0,
        p.entries.len() == 2 ==> (balanced(p) <==> p.entries[0].amount_minor
            == -p.entries[1].amount_minor),
{
    if p.entries.len() == 2 {
        reveal_with_fuel(total, 3);
        let e = p.entries;
        assert(e.drop_last() =~= seq![e[0]]);
        assert(seq![e[0]].drop_last() =~= Seq::<EntryView>::empty());
    }
}

/// The message of an unbalanced transaction tells what its entries sum to.
pub proof fn law_what_errors_say(sum: i64, message: String)
    ensures
        LedgerError::Unbalanced(sum).message_text()
            == "ledger transaction does not balance: entries sum to "@ + signed_decimal(sum as int)
            + ", expected 0"@,
        LedgerError::TooFewEntries.message_text()
            == "ledger transaction needs at least two entries"@,
        LedgerError::Db(message).message_text() == message@,
{
}

} // verus!

//! The transaction engine's rules: when a submission is refused, which rows a
//! commit writes, and what reading a transaction back shows.

use vstd::prelude::*;

use crate::amount::{decimal_text, lemma_total_is_exact, sum_atoms, total_of, Amount};
use crate::errors::{AppError, ErrorKind};
use crate::ledger::{
    find_account, find_transaction, find_transaction_by_reference, transaction_with_id, LedgerView,
};
use crate::table::lemma_find_first_none;
use crate::models::{
    Account, CreateEntryRequest, CreateTransactionRequest, Entry, EntryWithAccount, Transaction,
    TransactionWithEntries,
};
use crate::text::{copy_opt, joined};

verus! {

pub open spec fn transaction_without_id(id: Seq<char>) -> spec_fn(Transaction) -> bool {
    |t: Transaction| t.id@ != id
}

pub open spec fn entry_outside(transaction_id: Seq<char>) -> spec_fn(Entry) -> bool {
    |e: Entry| e.transaction_id@ != transaction_id
}

/// A missing amount counts as zero.
pub open spec fn amount_or_zero(a: Option<Amount>) -> Amount {
    match a {
        Some(x) => x,
        None => Amount::zero_spec(),
    }
}

pub open spec fn requested_debits(es: Seq<CreateEntryRequest>) -> Seq<Amount> {
    es.map_values(|e: CreateEntryRequest| amount_or_zero(e.debit_amount))
}

pub open spec fn requested_credits(es: Seq<CreateEntryRequest>) -> Seq<Amount> {
    es.map_values(|e: CreateEntryRequest| amount_or_zero(e.credit_amount))
}

/// The debits and the credits both have a total, and the two are the same
/// number.
pub open spec fn is_balanced(es: Seq<CreateEntryRequest>) -> bool {
    match (total_of(requested_debits(es)), total_of(requested_credits(es))) {
        (Some(d), Some(c)) => d.atoms() == c.atoms(),
        _ => false,
    }
}

/// Every entry names an account of the store.
pub open spec fn accounts_exist(accounts: Seq<Account>, es: Seq<CreateEntryRequest>) -> bool {
    forall|i: int| 0 <= i < es.len() ==> find_account(accounts,
        (#[trigger] es[i]).account_id@) is Some
}

/// Why a submission is refused, checked in this order: its shape, an empty
/// list of entries, debits that differ from credits, an unknown account, a
/// reference already in use.
pub open spec fn submission_error(
    l: LedgerView,
    req: CreateTransactionRequest,
) -> Option<ErrorKind> {
    if !req.valid_spec() {
        Some(ErrorKind::Validation)
    } else if req.entries@.len() == 0 {
        Some(ErrorKind::Validation)
    } else if !is_balanced(req.entries@) {
        Some(ErrorKind::Validation)
    } else if !accounts_exist(l.accounts, req.entries@) {
        Some(ErrorKind::NotFound)
    } else if find_transaction_by_reference(l.transactions, req.reference@) is Some {
        Some(ErrorKind::Database)
    } else {
        None
    }
}

/// The identifiers can name the new rows: one per entry, none of them in use
/// and no two alike.
pub open spec fn ids_usable(
    l: LedgerView,
    transaction_id: Seq<char>,
    entry_ids: Seq<String>,
    n: int,
) -> bool {
    &&& entry_ids.len() == n
    &&& forall|k: int| 0 <= k < l.transactions.len() ==> (#[trigger] l.transactions[k]).id@
        != transaction_id
    &&& forall|k: int| 0 <= k < l.entries.len() ==> (#[trigger] l.entries[k]).transaction_id@
        != transaction_id
    &&& forall|i: int, j: int| 0 <= i < j < n ==> (#[trigger] entry_ids[i])@
        != (#[trigger] entry_ids[j])@
    &&& forall|i: int, k: int| 0 <= i < n && 0 <= k < l.entries.len()
        ==> (#[trigger] entry_ids[i])@ != (#[trigger] l.entries[k]).id@
}

/// The message of a refused, unbalanced transaction: both totals, as decimal
/// text.
pub open spec fn unbalanced_detail(debits: Amount, credits: Amount) -> Seq<char> {
    "Total debits must equal total credits: debits "@ + decimal_text(
        debits.mantissa_spec(),
        debits.scale_spec(),
    ) + ", credits "@ + decimal_text(credits.mantissa_spec(), credits.scale_spec())
}

/// Where a well-formed, non-empty request has two totals that differ, the
/// result is a validation error that carries both.
pub open spec fn reports_totals<T>(r: Result<T, AppError>, req: CreateTransactionRequest) -> bool {
    req.valid_spec() && req.entries@.len() > 0 ==> match (
        total_of(requested_debits(req.entries@)),
        total_of(requested_credits(req.entries@)),
    ) {
        (Some(d), Some(c)) => d.atoms() != c.atoms() ==> (r matches Err(
            AppError::ValidationError(m),
        ) && m@ == unbalanced_detail(d, c)),
        _ => true,
    }
}

/// The transaction row written for a request.
pub open spec fn transaction_row(
    req: CreateTransactionRequest,
    id: String,
    now: String,
) -> Transaction {
    Transaction {
        id,
        reference: req.reference,
        description: req.description,
        transaction_date: match req.transaction_date {
            Some(d) => d,
            None => now,
        },
        created_at: now,
        updated_at: now,
    }
}

/// The entry row written for a requested entry: its amounts, zero where
/// missing, as decimal text.
pub open spec fn entry_row(
    row: Entry,
    e: CreateEntryRequest,
    id: String,
    transaction_id: String,
    now: String,
) -> bool {
    let d = amount_or_zero(e.debit_amount);
    let c = amount_or_zero(e.credit_amount);
    &&& row.id == id
    &&& row.transaction_id == transaction_id
    &&& row.account_id == e.account_id
    &&& row.debit_amount@ == decimal_text(d.mantissa_spec(), d.scale_spec())
    &&& Amount::stored_spec(row.debit_amount@) == d
    &&& Amount::stored_spec(row.credit_amount@) == c
    &&& row.credit_amount@ == decimal_text(c.mantissa_spec(), c.scale_spec())
    &&& row.description == e.description
    &&& row.created_at == now
}

/// `new` is `old` with the transaction and its entries appended.
pub open spec fn committed(
    old: LedgerView,
    new: LedgerView,
    req: CreateTransactionRequest,
    transaction_id: String,
    entry_ids: Seq<String>,
    now: String,
) -> bool {
    &&& new.accounts == old.accounts
    &&& new.transactions == old.transactions.push(transaction_row(req, transaction_id, now))
    &&& new.entries.len() == old.entries.len() + req.entries@.len()
    &&& new.entries.subrange(0, old.entries.len() as int) == old.entries
    &&& forall|i: int| 0 <= i < req.entries@.len() ==> entry_row(
        #[trigger] new.entries[old.entries.len() + i],
        req.entries@[i],
        entry_ids[i],
        transaction_id,
        now,
    )
}

/// An entry joined with its account; a stored amount that holds no decimal
/// reads as zero.
pub open spec fn entry_with_account(e: Entry, a: Account) -> EntryWithAccount {
    EntryWithAccount {
        id: e.id,
        transaction_id: e.transaction_id,
        account_id: e.account_id,
        account_code: a.code,
        account_name: a.name,
        debit_amount: Amount::stored_spec(e.debit_amount@),
        credit_amount: Amount::stored_spec(e.credit_amount@),
        description: e.description,
        created_at: e.created_at,
    }
}

/// The entries of a transaction, in table order, each joined with its
/// account; an entry whose account is gone is left out.
pub open spec fn joined_entries(
    entries: Seq<Entry>,
    accounts: Seq<Account>,
    transaction_id: Seq<char>,
) -> Seq<EntryWithAccount>
    decreases entries.len(),
{
    if entries.len() == 0 {
        Seq::empty()
    } else {
        let prev = joined_entries(entries.drop_last(), accounts, transaction_id);
        let e = entries.last();
        if e.transaction_id@ == transaction_id {
            match find_account(accounts, e.account_id@) {
                Some(a) => prev.push(entry_with_account(e, a)),
                None => prev,
            }
        } else {
            prev
        }
    }
}

/// `v` is the transaction `t` with the entries `es`.
pub open spec fn shows(
    v: TransactionWithEntries,
    t: Transaction,
    es: Seq<EntryWithAccount>,
) -> bool {
    &&& v.id == t.id
    &&& v.reference == t.reference
    &&& v.description == t.description
    &&& v.transaction_date == t.transaction_date
    &&& v.created_at == t.created_at
    &&& v.updated_at == t.updated_at
    &&& v.entries@ == es
}

pub proof fn lemma_joined_append(
    a: Seq<Entry>,
    b: Seq<Entry>,
    accounts: Seq<Account>,
    tid: Seq<char>,
)
    ensures
        joined_entries(a + b, accounts, tid) == joined_entries(a, accounts,
            tid) + joined_entries(b, accounts, tid),
    decreases b.len(),
{
    if b.len() == 0 {
        assert(a + b == a);
        assert(joined_entries(a, accounts, tid) + Seq::<EntryWithAccount>::empty()
            == joined_entries(a, accounts, tid));
    } else {
        lemma_joined_append(a, b.drop_last(), accounts, tid);
        assert((a + b).drop_last() == a + b.drop_last());
        assert((a + b).last() == b.last());
        let x = joined_entries(a, accounts, tid);
        let y = joined_entries(b.drop_last(), accounts, tid);
        if b.last().transaction_id@ == tid {
            if let Some(acc) = find_account(accounts, b.last().account_id@) {
                assert(x + y.push(entry_with_account(b.last(), acc))
                    == (x + y).push(entry_with_account(b.last(), acc)));
            }
        }
    }
}

/// No entry of a transaction that no entry names.
pub proof fn lemma_joined_none(entries: Seq<Entry>, accounts: Seq<Account>, tid: Seq<char>)
    requires
        forall|k: int| 0 <= k < entries.len() ==> (#[trigger] entries[k]).transaction_id@ != tid,
    ensures
        joined_entries(entries, accounts, tid).len() == 0,
    decreases entries.len(),
{
    if entries.len() > 0 {
        lemma_joined_none(entries.drop_last(), accounts, tid);
    }
}

/// Rows that all belong to the transaction and name known accounts are all
/// joined, in order.
proof fn lemma_joined_all(rows: Seq<Entry>, accounts: Seq<Account>, tid: Seq<char>)
    requires
        forall|k: int| 0 <= k < rows.len() ==> (#[trigger] rows[k]).transaction_id@ == tid,
        forall|k: int| 0 <= k < rows.len() ==> find_account(accounts,
            (#[trigger] rows[k]).account_id@) is Some,
    ensures
        joined_entries(rows, accounts, tid).len() == rows.len(),
        forall|k: int| 0 <= k < rows.len() ==> joined_entries(rows, accounts, tid)[k]
            == entry_with_account(rows[k], find_account(accounts, rows[k].account_id@)->Some_0),
    decreases rows.len(),
{
    if rows.len() > 0 {
        let p = rows.drop_last();
        assert forall|k: int| 0 <= k < p.len() implies (#[trigger] p[k]).transaction_id@ == tid
            && find_account(accounts, p[k].account_id@) is Some by {
            assert(p[k] == rows[k]);
        }
        lemma_joined_all(p, accounts, tid);
        assert(rows.last() == rows[rows.len() - 1]);
    }
}

/// Looking up a committed transaction by its id finds the row written for
/// it, and reading it back gives one entry for each requested
/// entry, in order, with the id of the account it names, that account's code
/// and name at commit time, the requested amounts (zero where missing) and
/// the requested description.
pub proof fn lemma_read_back(
    old: LedgerView,
    new: LedgerView,
    req: CreateTransactionRequest,
    transaction_id: String,
    entry_ids: Seq<String>,
    now: String,
)
    requires
        committed(old, new, req, transaction_id, entry_ids, now),
        ids_usable(old, transaction_id@, entry_ids, req.entries@.len() as int),
        accounts_exist(old.accounts, req.entries@),
    ensures
        find_transaction(new.transactions, transaction_id@) == Some(
            transaction_row(req, transaction_id, now),
        ),
        ({
            let js = joined_entries(new.entries, new.accounts, transaction_id@);
            &&& js.len() == req.entries@.len()
            &&& forall|i: int| 0 <= i < js.len() ==> {
                let e = #[trigger] req.entries@[i];
                let a = find_account(old.accounts, e.account_id@)->Some_0;
                &&& js[i].account_id == e.account_id
                &&& js[i].account_code == a.code
                &&& js[i].account_name == a.name
                &&& js[i].debit_amount == amount_or_zero(e.debit_amount)
                &&& js[i].credit_amount == amount_or_zero(e.credit_amount)
                &&& js[i].description == e.description
            }
        }),
{
    lemma_find_first_none(old.transactions, transaction_with_id(transaction_id@));
    assert(new.transactions.drop_last() == old.transactions);
    let n = old.entries.len() as int;
    let rows = new.entries.subrange(n, new.entries.len() as int);
    assert(new.entries == old.entries + rows);
    lemma_joined_append(old.entries, rows, new.accounts, transaction_id@);
    lemma_joined_none(old.entries, new.accounts, transaction_id@);
    assert forall|k: int| 0 <= k < rows.len() implies (#[trigger] rows[k]).transaction_id@
        == transaction_id@
        && find_account(new.accounts, rows[k].account_id@) is Some by {
        assert(rows[k] == new.entries[n + k]);
        assert(entry_row(new.entries[n + k], req.entries@[k], entry_ids[k], transaction_id, now));
    }
    lemma_joined_all(rows, new.accounts, transaction_id@);
    let js = joined_entries(new.entries, new.accounts, transaction_id@);
    assert(js == joined_entries(rows, new.accounts, transaction_id@));
    assert forall|i: int| 0 <= i < js.len() implies {
        let e = #[trigger] req.entries@[i];
        let a = find_account(old.accounts, e.account_id@)->Some_0;
        &&& js[i].account_id == e.account_id
        &&& js[i].account_code == a.code
        &&& js[i].account_name == a.name
        &&& js[i].debit_amount == amount_or_zero(e.debit_amount)
        &&& js[i].credit_amount == amount_or_zero(e.credit_amount)
        &&& js[i].description == e.description
    } by {
        assert(rows[i] == new.entries[n + i]);
        assert(entry_row(new.entries[n + i], req.entries@[i], entry_ids[i], transaction_id, now));
    }
}

pub(crate) fn amount_or_zero_exec(a: &Option<Amount>) -> (r: Amount)
    ensures
        r == amount_or_zero(*a),
{
    match a {
        Some(x) => *x,
        None => Amount::zero(),
    }
}

/// The requested debits and credits, zero where missing.
pub(crate) fn requested_amounts(es: &Vec<CreateEntryRequest>) -> (r: (Vec<Amount>, Vec<Amount>))
    ensures
        r.0@ == requested_debits(es@),
        r.1@ == requested_credits(es@),
{
    let mut debits: Vec<Amount> = Vec::new();
    let mut credits: Vec<Amount> = Vec::new();
    let mut i: usize = 0;
    while i < es.len()
        invariant
            i <= es@.len(),
            debits@ == requested_debits(es@).subrange(0, i as int),
            credits@ == requested_credits(es@).subrange(0, i as int),
        decreases es@.len() - i,
    {
        debits.push(amount_or_zero_exec(&es[i].debit_amount));
        credits.push(amount_or_zero_exec(&es[i].credit_amount));
        i = i + 1;
    }
    (debits, credits)
}

/// The message of a refused, unbalanced transaction, with both totals.
pub(crate) fn unbalanced_message(debits: &Amount, credits: &Amount) -> (r: AppError)
    ensures
        r matches AppError::ValidationError(m) && m@ == unbalanced_detail(*debits, *credits),
{
    let a = joined("Total debits must equal total credits: debits ", debits.to_text().as_str());
    let b = joined(a.as_str(), ", credits ");
    AppError::ValidationError(joined(b.as_str(), credits.to_text().as_str()))
}

pub(crate) fn join_entry(e: &Entry, a: &Account) -> (r: EntryWithAccount)
    ensures
        r == entry_with_account(*e, *a),
{
    EntryWithAccount {
        id: e.id.clone(),
        transaction_id: e.transaction_id.clone(),
        account_id: e.account_id.clone(),
        account_code: a.code.clone(),
        account_name: a.name.clone(),
        debit_amount: Amount::from_stored_text(e.debit_amount.as_str()),
        credit_amount: Amount::from_stored_text(e.credit_amount.as_str()),
        description: copy_opt(&e.description),
        created_at: e.created_at.clone(),
    }
}

/// The entries that an accepted commit writes balance: read back from their
/// stored text, their debits and their credits have the same exact sum.
pub proof fn lemma_committed_entries_balance(
    old: LedgerView,
    new: LedgerView,
    req: CreateTransactionRequest,
    transaction_id: String,
    entry_ids: Seq<String>,
    now: String,
)
    requires
        committed(old, new, req, transaction_id, entry_ids, now),
        is_balanced(req.entries@),
    ensures
        ({
            let rows = new.entries.subrange(old.entries.len() as int, new.entries.len() as int);
            sum_atoms(rows.map_values(|e: Entry| Amount::stored_spec(e.debit_amount@))) == sum_atoms(
                rows.map_values(|e: Entry| Amount::stored_spec(e.credit_amount@)),
            )
        }),
{
    let n = old.entries.len() as int;
    let rows = new.entries.subrange(n, new.entries.len() as int);
    let es = req.entries@;
    assert forall|i: int| 0 <= i < es.len() implies {
        &&& Amount::stored_spec((#[trigger] rows[i]).debit_amount@) == amount_or_zero(es[i].debit_amount)
        &&& Amount::stored_spec(rows[i].credit_amount@) == amount_or_zero(es[i].credit_amount)
    } by {
        assert(rows[i] == new.entries[n + i]);
        assert(entry_row(new.entries[n + i], es[i], entry_ids[i], transaction_id, now));
    }
    assert(rows.map_values(|e: Entry| Amount::stored_spec(e.debit_amount@)) == requested_debits(es));
    assert(rows.map_values(|e: Entry| Amount::stored_spec(e.credit_amount@)) == requested_credits(
        es,
    ));
    lemma_total_is_exact(requested_debits(es));
    lemma_total_is_exact(requested_credits(es));
}

} // verus!

//! The store: the tables of accounts, transactions and entries, and the
//! operations on them, each applied whole or not at all.

use vstd::prelude::*;

use crate::amount::{lemma_total_is_exact, sum_atoms, total, Amount};
use crate::balance::{
    account_credits, account_debits, account_of_type, balance_of, balance_query, balances_of,
    entry_of_account, lemma_balances_none_stays, signed_balance, stored_credit, stored_debit,
};
use crate::errors::{fails_with, AppError, ErrorKind};
use crate::models::{
    Account, AccountBalance, CreateAccountRequest, CreateTransactionRequest, Entry,
    EntryWithAccount, NewAccount, Transaction, TransactionWithEntries, UpdateAccountRequest,
};
use crate::order::{insert_position, lemma_insert_keeps_order, newest_first, text_le, texts};
use crate::posting::{
    amount_or_zero, amount_or_zero_exec, committed, entry_outside, entry_row, ids_usable, is_balanced,
    join_entry, joined_entries, lemma_joined_none, lemma_read_back, requested_amounts,
    reports_totals, requested_credits, requested_debits, shows, submission_error, transaction_row,
    transaction_without_id, unbalanced_message,
};
use crate::table::{
    distinct_keys, find_first, lemma_filter_distinct, lemma_find_first_at, lemma_find_first_none,
    lemma_find_first_result,
};
use crate::text::{copy_opt, same_text};

verus! {

broadcast use vstd::seq_lib::group_filter_ensures;

/// Relies on uuid: `Uuid::new_v4` draws a random identifier and `to_string`
/// writes it. (It panics only where the system's random source fails.)
#[verifier::external_body]
pub(crate) fn fresh_id() -> (r: String) {
    uuid::Uuid::new_v4().to_string()
}

/// Relies on chrono: `Utc::now` reads the clock and `to_rfc3339` writes the
/// time as RFC 3339 text.
#[verifier::external_body]
pub(crate) fn now_text() -> (r: String) {
    chrono::Utc::now().to_rfc3339()
}

pub open spec fn account_id_key() -> spec_fn(Account) -> Seq<char> {
    |a: Account| a.id@
}

pub open spec fn account_code_key() -> spec_fn(Account) -> Seq<char> {
    |a: Account| a.code@
}

pub open spec fn transaction_id_key() -> spec_fn(Transaction) -> Seq<char> {
    |t: Transaction| t.id@
}

pub open spec fn transaction_reference_key() -> spec_fn(Transaction) -> Seq<char> {
    |t: Transaction| t.reference@
}

pub open spec fn entry_id_key() -> spec_fn(Entry) -> Seq<char> {
    |e: Entry| e.id@
}

pub open spec fn account_with_id(id: Seq<char>) -> spec_fn(Account) -> bool {
    |a: Account| a.id@ == id
}

pub open spec fn account_without_id(id: Seq<char>) -> spec_fn(Account) -> bool {
    |a: Account| a.id@ != id
}

pub open spec fn account_with_code(code: Seq<char>) -> spec_fn(Account) -> bool {
    |a: Account| a.code@ == code
}

pub open spec fn transaction_with_id(id: Seq<char>) -> spec_fn(Transaction) -> bool {
    |t: Transaction| t.id@ == id
}

pub open spec fn transaction_with_reference(reference: Seq<char>) -> spec_fn(Transaction) -> bool {
    |t: Transaction| t.reference@ == reference
}

/// The account with the given id.
pub open spec fn find_account(accounts: Seq<Account>, id: Seq<char>) -> Option<Account> {
    find_first(accounts, account_with_id(id))
}

/// The account with the given code.
pub open spec fn find_account_by_code(accounts: Seq<Account>, code: Seq<char>) -> Option<Account> {
    find_first(accounts, account_with_code(code))
}

/// The transaction with the given id.
pub open spec fn find_transaction(transactions: Seq<Transaction>, id: Seq<char>) -> Option<
    Transaction,
> {
    find_first(transactions, transaction_with_id(id))
}

/// The transaction with the given reference.
pub open spec fn find_transaction_by_reference(
    transactions: Seq<Transaction>,
    reference: Seq<char>,
) -> Option<Transaction> {
    find_first(transactions, transaction_with_reference(reference))
}

/// The rows of the three tables.
pub struct LedgerView {
    pub accounts: Seq<Account>,
    pub transactions: Seq<Transaction>,
    pub entries: Seq<Entry>,
}

impl LedgerView {
    /// Account ids and codes, transaction ids and references, and entry ids
    /// are each unique.
    pub open spec fn wf(self) -> bool {
        &&& distinct_keys(self.accounts, account_id_key())
        &&& distinct_keys(self.accounts, account_code_key())
        &&& distinct_keys(self.transactions, transaction_id_key())
        &&& distinct_keys(self.transactions, transaction_reference_key())
        &&& distinct_keys(self.entries, entry_id_key())
    }
}

/// The account that `update` makes of `old`, stamped at `now`: the fields
/// that the request gives are replaced, the others kept.
pub open spec fn updated_account(
    new: Account,
    old: Account,
    req: UpdateAccountRequest,
    now: String,
) -> bool {
    &&& new.id == old.id
    &&& new.code == (match req.code {
        Some(c) => c,
        None => old.code,
    })
    &&& new.name == (match req.name {
        Some(n) => n,
        None => old.name,
    })
    &&& match req.account_type {
        Some(t) => new.account_type@ == t.name_spec(),
        None => new.account_type == old.account_type,
    }
    &&& new.parent_id == (match req.parent_id {
        Some(p) => Some(p),
        None => old.parent_id,
    })
    &&& new.is_active == (match req.is_active {
        Some(b) => b,
        None => old.is_active,
    })
    &&& new.created_at == old.created_at
    &&& new.updated_at == now
}

/// The creation stamps of the transactions, in order.
pub open spec fn transaction_times(s: Seq<Transaction>) -> Seq<Seq<char>> {
    s.map_values(|t: Transaction| t.created_at@)
}

/// The creation stamps of the accounts, in order.
pub open spec fn account_times(s: Seq<Account>) -> Seq<Seq<char>> {
    s.map_values(|a: Account| a.created_at@)
}

/// The store of accounts, transactions and entries. Every change is applied
/// whole or not at all.
pub struct Ledger {
    accounts: Vec<Account>,
    transactions: Vec<Transaction>,
    entries: Vec<Entry>,
}

impl View for Ledger {
    type V = LedgerView;

    closed spec fn view(&self) -> LedgerView {
        LedgerView {
            accounts: self.accounts@,
            transactions: self.transactions@,
            entries: self.entries@,
        }
    }
}

pub(crate) fn copy_account(a: &Account) -> (r: Account)
    ensures
        r == *a,
{
    Account {
        id: a.id.clone(),
        code: a.code.clone(),
        name: a.name.clone(),
        account_type: a.account_type.clone(),
        parent_id: copy_opt(&a.parent_id),
        is_active: a.is_active,
        created_at: a.created_at.clone(),
        updated_at: a.updated_at.clone(),
    }
}

pub(crate) fn copy_entry(e: &Entry) -> (r: Entry)
    ensures
        r == *e,
{
    Entry {
        id: e.id.clone(),
        transaction_id: e.transaction_id.clone(),
        account_id: e.account_id.clone(),
        debit_amount: e.debit_amount.clone(),
        credit_amount: e.credit_amount.clone(),
        description: copy_opt(&e.description),
        created_at: e.created_at.clone(),
    }
}

pub(crate) fn copy_transaction(t: &Transaction) -> (r: Transaction)
    ensures
        r == *t,
{
    Transaction {
        id: t.id.clone(),
        reference: t.reference.clone(),
        description: t.description.clone(),
        transaction_date: t.transaction_date.clone(),
        created_at: t.created_at.clone(),
        updated_at: t.updated_at.clone(),
    }
}

fn keys_distinct_accounts(s: &Vec<Account>) -> (r: bool)
    ensures
        r == (distinct_keys(s@, account_id_key()) && distinct_keys(s@, account_code_key())),
{
    let mut i: usize = 0;
    while i < s.len()
        invariant
            i <= s@.len(),
            forall|a: int, b: int| 0 <= a < b < s@.len() && a < i ==> (#[trigger] s@[a]).id@
                != (#[trigger] s@[b]).id@ && s@[a].code@ != s@[b].code@,
        decreases s@.len() - i,
    {
        let mut j: usize = i + 1;
        while j < s.len()
            invariant
                i < s@.len(),
                i + 1 <= j <= s@.len(),
                forall|b: int| i < b < j ==> s@[i as int].id@ != (#[trigger] s@[b]).id@
                    && s@[i as int].code@ != s@[b].code@,
            decreases s@.len() - j,
        {
            if same_text(s[i].id.as_str(), s[j].id.as_str()) || same_text(s[i].code.as_str(),
                s[j].code.as_str()) {
                return false;
            }
            j = j + 1;
        }
        i = i + 1;
    }
    true
}

fn keys_distinct_transactions(s: &Vec<Transaction>) -> (r: bool)
    ensures
        r == (distinct_keys(s@, transaction_id_key()) && distinct_keys(s@,
            transaction_reference_key())),
{
    let mut i: usize = 0;
    while i < s.len()
        invariant
            i <= s@.len(),
            forall|a: int, b: int| 0 <= a < b < s@.len() && a < i ==> (#[trigger] s@[a]).id@
                != (#[trigger] s@[b]).id@ && s@[a].reference@ != s@[b].reference@,
        decreases s@.len() - i,
    {
        let mut j: usize = i + 1;
        while j < s.len()
            invariant
                i < s@.len(),
                i + 1 <= j <= s@.len(),
                forall|b: int| i < b < j ==> s@[i as int].id@ != (#[trigger] s@[b]).id@
                    && s@[i as int].reference@ != s@[b].reference@,
            decreases s@.len() - j,
        {
            if same_text(s[i].id.as_str(), s[j].id.as_str()) || same_text(s[i].reference.as_str(),
                s[j].reference.as_str()) {
                return false;
            }
            j = j + 1;
        }
        i = i + 1;
    }
    true
}

fn keys_distinct_entries(s: &Vec<Entry>) -> (r: bool)
    ensures
        r == distinct_keys(s@, entry_id_key()),
{
    let mut i: usize = 0;
    while i < s.len()
        invariant
            i <= s@.len(),
            forall|a: int, b: int| 0 <= a < b < s@.len() && a < i ==> (#[trigger] s@[a]).id@
                != (#[trigger] s@[b]).id@,
        decreases s@.len() - i,
    {
        let mut j: usize = i + 1;
        while j < s.len()
            invariant
                i < s@.len(),
                i + 1 <= j <= s@.len(),
                forall|b: int| i < b < j ==> s@[i as int].id@ != (#[trigger] s@[b]).id@,
            decreases s@.len() - j,
        {
            if same_text(s[i].id.as_str(), s[j].id.as_str()) {
                return false;
            }
            j = j + 1;
        }
        i = i + 1;
    }
    true
}

impl Ledger {
    /// An empty store.
    pub fn new() -> (r: Ledger)
        ensures
            r@.wf(),
            r@.accounts.len() == 0,
            r@.transactions.len() == 0,
            r@.entries.len() == 0,
    {
        Ledger { accounts: Vec::new(), transactions: Vec::new(), entries: Vec::new() }
    }

    /// The position of the account with the given id.
    fn account_index(&self, id: &str) -> (r: Option<usize>)
        ensures
            match r {
                Some(i) => i < self@.accounts.len() && find_account(self@.accounts, id@) == Some(
                    self@.accounts[i as int],
                ),
                None => find_account(self@.accounts, id@) is None,
            },
    {
        let mut i: usize = 0;
        while i < self.accounts.len()
            invariant
                i <= self@.accounts.len(),
                forall|j: int| 0 <= j < i ==> (#[trigger] self@.accounts[j]).id@ != id@,
            decreases self@.accounts.len() - i,
        {
            if same_text(self.accounts[i].id.as_str(), id) {
                proof {
                    lemma_find_first_at(self@.accounts, account_with_id(id@), i as int);
                }
                return Some(i);
            }
            i = i + 1;
        }
        proof {
            lemma_find_first_none(self@.accounts, account_with_id(id@));
        }
        None
    }

    /// The position of the account with the given code.
    fn code_index(&self, code: &str) -> (r: Option<usize>)
        ensures
            match r {
                Some(i) => i < self@.accounts.len() && self@.accounts[i as int].code@ == code@,
                None => forall|j: int|
                    0 <= j < self@.accounts.len() ==> (#[trigger] self@.accounts[j]).code@ != code@,
            },
    {
        let mut i: usize = 0;
        while i < self.accounts.len()
            invariant
                i <= self@.accounts.len(),
                forall|j: int| 0 <= j < i ==> (#[trigger] self@.accounts[j]).code@ != code@,
            decreases self@.accounts.len() - i,
        {
            if same_text(self.accounts[i].code.as_str(), code) {
                return Some(i);
            }
            i = i + 1;
        }
        None
    }

    /// Writes an account row. Fails, writing nothing, where its id or its
    /// code is already in use.
    pub fn insert_account(&mut self, row: NewAccount) -> (r: Result<Account, AppError>)
        requires
            old(self)@.wf(),
        ensures
            final(self)@.wf(),
            final(self)@.transactions == old(self)@.transactions,
            final(self)@.entries == old(self)@.entries,
            ({
                let a = Account {
                    id: row.id,
                    code: row.code,
                    name: row.name,
                    account_type: row.account_type,
                    parent_id: row.parent_id,
                    is_active: row.is_active,
                    created_at: row.created_at,
                    updated_at: row.updated_at,
                };
                if find_account(old(self)@.accounts, row.id@) is None && find_account_by_code(
                    old(self)@.accounts,
                    row.code@,
                ) is None {
                    r == Ok::<Account, AppError>(a) && final(self)@.accounts == old(
                        self,
                    )@.accounts.push(a)
                } else {
                    fails_with(r, ErrorKind::Database) && final(self)@ == old(self)@
                }
            }),
    {
        let taken_id = self.account_index(row.id.as_str());
        let taken_code = self.code_index(row.code.as_str());
        proof {
            lemma_find_first_result(self@.accounts, account_with_code(row.code@));
        }
        if taken_id.is_some() || taken_code.is_some() {
            return Err(
                AppError::DatabaseError(
                    String::from_str("An account with this id or code already exists"),
                ),
            );
        }
        let a = Account {
            id: row.id,
            code: row.code,
            name: row.name,
            account_type: row.account_type,
            parent_id: row.parent_id,
            is_active: row.is_active,
            created_at: row.created_at,
            updated_at: row.updated_at,
        };
        let ghost before = self@;
        let kept = copy_account(&a);
        self.accounts.push(kept);
        proof {
            lemma_find_first_result(before.accounts, account_with_id(a.id@));
            let s = self@.accounts;
            assert forall|i: int, j: int| 0 <= i < j < s.len() implies (#[trigger] s[i]).id@ != (
            #[trigger] s[j]).id@ && s[i].code@ != s[j].code@ by {
                if j == s.len() - 1 {
                    assert(s[i] == before.accounts[i]);
                } else {
                    assert(s[i] == before.accounts[i] && s[j] == before.accounts[j]);
                }
            }
        }
        Ok(a)
    }

    /// Opens an account from a request: it gets a fresh id, the time of the
    /// call, and starts active.
    pub fn create_account(&mut self, req: &CreateAccountRequest) -> (r: Result<Account, AppError>)
        requires
            old(self)@.wf(),
        ensures
            final(self)@.wf(),
            final(self)@.transactions == old(self)@.transactions,
            final(self)@.entries == old(self)@.entries,
            !req.valid_spec() ==> fails_with(r, ErrorKind::Validation),
            req.valid_spec() && find_account_by_code(old(self)@.accounts, req.code@) is Some
                ==> fails_with(r, ErrorKind::Database),
            req.valid_spec() ==> r is Ok || fails_with(r, ErrorKind::Database),
            req.valid_spec() && old(self)@.accounts.len() == 0 ==> r is Ok,
            r is Err ==> final(self)@ == old(self)@,
            r matches Ok(a) ==> {
                &&& req.valid_spec()
                &&& final(self)@.accounts == old(self)@.accounts.push(a)
                &&& a.code == req.code
                &&& a.name == req.name
                &&& a.account_type@ == req.account_type.name_spec()
                &&& a.parent_id == req.parent_id
                &&& a.is_active
                &&& a.created_at == a.updated_at
            },
    {
        let checked = req.validate();
        if let Err(e) = checked {
            return Err(e);
        }
        let id = fresh_id();
        let now = now_text();
        let row = NewAccount {
            id,
            code: req.code.clone(),
            name: req.name.clone(),
            account_type: req.account_type.name(),
            parent_id: copy_opt(&req.parent_id),
            is_active: true,
            created_at: now.clone(),
            updated_at: now,
        };
        self.insert_account(row)
    }

    /// The account with the given id.
    pub fn get_account(&self, id: &str) -> (r: Result<Account, AppError>)
        ensures
            match find_account(self@.accounts, id@) {
                Some(a) => r == Ok::<Account, AppError>(a),
                None => fails_with(r, ErrorKind::NotFound),
            },
    {
        match self.account_index(id) {
            Some(i) => Ok(copy_account(&self.accounts[i])),
            None => Err(AppError::NotFound(String::from_str("Record not found"))),
        }
    }

    /// Every account, the most recently created first: ordered by
    /// `created_at` from latest to earliest, by the order of characters
    /// (which is the order of time for the RFC 3339 stamps written here).
    pub fn all_accounts(&self) -> (r: Vec<Account>)
        ensures
            r@.to_multiset() == self@.accounts.to_multiset(),
            r@.len() == self@.accounts.len(),
            newest_first(account_times(r@)),
    {
        broadcast use vstd::seq_lib::group_to_multiset_ensures;

        let mut out: Vec<Account> = Vec::new();
        let mut keys: Vec<String> = Vec::new();
        let mut i: usize = 0;
        while i < self.accounts.len()
            invariant
                i <= self@.accounts.len(),
                keys@.len() == out@.len(),
                out@.len() == i,
                texts(keys@) == account_times(out@),
                newest_first(texts(keys@)),
                out@.to_multiset() == self@.accounts.subrange(0, i as int).to_multiset(),
            decreases self@.accounts.len() - i,
        {
            let t = copy_account(&self.accounts[i]);
            let j = insert_position(&keys, t.created_at.as_str());
            proof {
                let ks = texts(keys@);
                assert forall|k: int| 0 <= k < j implies text_le(t.created_at@, #[trigger] ks[k]) by {
                    assert(ks[k] == keys@[k]@);
                }
                assert forall|k: int| j <= k < ks.len() implies text_le(#[trigger] ks[k], t.created_at@) by {
                    assert(ks[k] == keys@[k]@);
                }
                lemma_insert_keeps_order(ks, t.created_at@, j as int);
                assert(self@.accounts.subrange(0, i + 1) == self@.accounts.subrange(
                    0,
                    i as int,
                ).push(t));
            }
            let ghost before_keys = keys@;
            let ghost before_out = out@;
            keys.insert(j, t.created_at.clone());
            out.insert(j, t);
            proof {
                assert(texts(keys@) == texts(before_keys).insert(j as int, t.created_at@));
                assert(account_times(out@) == account_times(before_out).insert(
                    j as int,
                    t.created_at@,
                ));
                vstd::seq_lib::to_multiset_insert(before_out, j as int, t);
                vstd::seq_lib::to_multiset_build(self@.accounts.subrange(0, i as int), t);
            }
            i = i + 1;
        }
        proof {
            assert(self@.accounts.subrange(0, self@.accounts.len() as int)
                == self@.accounts);
        }
        out
    }

    /// The position of the transaction with the given id.
    fn transaction_index(&self, id: &str) -> (r: Option<usize>)
        ensures
            match r {
                Some(i) => i < self@.transactions.len() && find_transaction(self@.transactions, id@)
                    == Some(self@.transactions[i as int]),
                None => find_transaction(self@.transactions, id@) is None,
            },
    {
        let mut i: usize = 0;
        while i < self.transactions.len()
            invariant
                i <= self@.transactions.len(),
                forall|j: int| 0 <= j < i ==> (#[trigger] self@.transactions[j]).id@ != id@,
            decreases self@.transactions.len() - i,
        {
            if same_text(self.transactions[i].id.as_str(), id) {
                proof {
                    lemma_find_first_at(self@.transactions, transaction_with_id(id@), i as int);
                }
                return Some(i);
            }
            i = i + 1;
        }
        proof {
            lemma_find_first_none(self@.transactions, transaction_with_id(id@));
        }
        None
    }

    /// The position of the transaction with the given reference.
    fn reference_index(&self, reference: &str) -> (r: Option<usize>)
        ensures
            match r {
                Some(i) => i < self@.transactions.len() && find_transaction_by_reference(
                    self@.transactions,
                    reference@,
                ) == Some(self@.transactions[i as int]),
                None => find_transaction_by_reference(self@.transactions, reference@) is None,
            },
    {
        let mut i: usize = 0;
        while i < self.transactions.len()
            invariant
                i <= self@.transactions.len(),
                forall|j: int| 0 <= j < i ==> (#[trigger] self@.transactions[j]).reference@
                    != reference@,
            decreases self@.transactions.len() - i,
        {
            if same_text(self.transactions[i].reference.as_str(), reference) {
                proof {
                    lemma_find_first_at(self@.transactions, transaction_with_reference(reference@),
                        i as int);
                }
                return Some(i);
            }
            i = i + 1;
        }
        proof {
            lemma_find_first_none(self@.transactions, transaction_with_reference(reference@));
        }
        None
    }

    /// Whether the identifiers can name the rows of a transaction with `n`
    /// entries.
    fn ids_are_usable(
        &self,
        transaction_id: &String,
        entry_ids: &Vec<String>,
        n: usize,
    ) -> (r: bool)
        ensures
            r == ids_usable(self@, transaction_id@, entry_ids@, n as int),
    {
        if entry_ids.len() != n {
            return false;
        }
        let mut k: usize = 0;
        while k < self.transactions.len()
            invariant
                k <= self@.transactions.len(),
                forall|j: int| 0 <= j < k ==> (#[trigger] self@.transactions[j]).id@
                    != transaction_id@,
            decreases self@.transactions.len() - k,
        {
            if same_text(self.transactions[k].id.as_str(), transaction_id.as_str()) {
                return false;
            }
            k = k + 1;
        }
        let mut k: usize = 0;
        while k < self.entries.len()
            invariant
                k <= self@.entries.len(),
                forall|j: int| 0 <= j < k ==> (#[trigger] self@.entries[j]).transaction_id@
                    != transaction_id@,
            decreases self@.entries.len() - k,
        {
            if same_text(self.entries[k].transaction_id.as_str(), transaction_id.as_str()) {
                return false;
            }
            k = k + 1;
        }
        let mut i: usize = 0;
        while i < n
            invariant
                i <= n,
                n == entry_ids@.len(),
                forall|a: int, b: int| 0 <= a < b < n && a < i ==> (#[trigger] entry_ids@[a])@
                    != (#[trigger] entry_ids@[b])@,
                forall|a: int, c: int| 0 <= a < i && 0 <= c < self@.entries.len()
                    ==> (#[trigger] entry_ids@[a])@ != (#[trigger] self@.entries[c]).id@,
            decreases n - i,
        {
            let mut j: usize = i + 1;
            while j < n
                invariant
                    i < n,
                    i + 1 <= j <= n,
                    n == entry_ids@.len(),
                    forall|b: int| i < b < j ==> entry_ids@[i as int]@
                        != (#[trigger] entry_ids@[b])@,
                decreases n - j,
            {
                if same_text(entry_ids[i].as_str(), entry_ids[j].as_str()) {
                    return false;
                }
                j = j + 1;
            }
            let mut c: usize = 0;
            while c < self.entries.len()
                invariant
                    i < n,
                    n == entry_ids@.len(),
                    c <= self@.entries.len(),
                    forall|d: int| 0 <= d < c ==> entry_ids@[i as int]@
                        != (#[trigger] self@.entries[d]).id@,
                decreases self@.entries.len() - c,
            {
                if same_text(entry_ids[i].as_str(), self.entries[c].id.as_str()) {
                    return false;
                }
                c = c + 1;
            }
            i = i + 1;
        }
        true
    }

    /// The transaction at position `k` with its entries.
    fn transaction_view(&self, k: usize) -> (r: TransactionWithEntries)
        requires
            k < self@.transactions.len(),
        ensures
            shows(
                r,
                self@.transactions[k as int],
                joined_entries(self@.entries, self@.accounts, self@.transactions[k as int].id@),
            ),
    {
        let t = &self.transactions[k];
        let mut out: Vec<EntryWithAccount> = Vec::new();
        let mut i: usize = 0;
        while i < self.entries.len()
            invariant
                i <= self@.entries.len(),
                k < self@.transactions.len(),
                *t == self@.transactions[k as int],
                out@ == joined_entries(self@.entries.subrange(0, i as int), self@.accounts, t.id@),
            decreases self@.entries.len() - i,
        {
            proof {
                assert(self@.entries.subrange(0, i + 1).drop_last() == self@.entries.subrange(0,
                    i as int));
                assert(self@.entries.subrange(0, i + 1).last() == self@.entries[i as int]);
            }
            let e = &self.entries[i];
            if same_text(e.transaction_id.as_str(), t.id.as_str()) {
                match self.account_index(e.account_id.as_str()) {
                    Some(j) => {
                        out.push(join_entry(e, &self.accounts[j]));
                    },
                    None => {},
                }
            }
            i = i + 1;
        }
        assert(self@.entries.subrange(0, self@.entries.len() as int) == self@.entries);
        TransactionWithEntries {
            id: t.id.clone(),
            reference: t.reference.clone(),
            description: t.description.clone(),
            transaction_date: t.transaction_date.clone(),
            created_at: t.created_at.clone(),
            updated_at: t.updated_at.clone(),
            entries: out,
        }
    }

    /// The transaction with the given id, with its entries.
    pub fn get_transaction(&self, id: &str) -> (r: Result<TransactionWithEntries, AppError>)
        ensures
            match find_transaction(self@.transactions, id@) {
                Some(t) => r matches Ok(v) && shows(
                    v,
                    t,
                    joined_entries(self@.entries, self@.accounts, t.id@),
                ),
                None => fails_with(r, ErrorKind::NotFound),
            },
    {
        match self.transaction_index(id) {
            Some(k) => Ok(self.transaction_view(k)),
            None => Err(AppError::NotFound(String::from_str("Record not found"))),
        }
    }

    /// The transaction with the given reference, with its entries.
    pub fn get_transaction_by_reference(&self, reference: &str) -> (r: Result<
        TransactionWithEntries,
        AppError,
    >)
        ensures
            match find_transaction_by_reference(self@.transactions, reference@) {
                Some(t) => r matches Ok(v) && shows(
                    v,
                    t,
                    joined_entries(self@.entries, self@.accounts, t.id@),
                ),
                None => fails_with(r, ErrorKind::NotFound),
            },
    {
        match self.reference_index(reference) {
            Some(k) => Ok(self.transaction_view(k)),
            None => Err(AppError::NotFound(String::from_str("Record not found"))),
        }
    }

    /// Every transaction, the most recently created first: ordered by
    /// `created_at` from latest to earliest, by the order of characters
    /// (which is the order of time for the RFC 3339 stamps written here).
    pub fn all_transactions(&self) -> (r: Vec<Transaction>)
        ensures
            r@.to_multiset() == self@.transactions.to_multiset(),
            r@.len() == self@.transactions.len(),
            newest_first(transaction_times(r@)),
    {
        broadcast use vstd::seq_lib::group_to_multiset_ensures;

        let mut out: Vec<Transaction> = Vec::new();
        let mut keys: Vec<String> = Vec::new();
        let mut i: usize = 0;
        while i < self.transactions.len()
            invariant
                i <= self@.transactions.len(),
                keys@.len() == out@.len(),
                out@.len() == i,
                texts(keys@) == transaction_times(out@),
                newest_first(texts(keys@)),
                out@.to_multiset() == self@.transactions.subrange(0, i as int).to_multiset(),
            decreases self@.transactions.len() - i,
        {
            let t = copy_transaction(&self.transactions[i]);
            let j = insert_position(&keys, t.created_at.as_str());
            proof {
                let ks = texts(keys@);
                assert forall|k: int| 0 <= k < j implies text_le(t.created_at@, #[trigger] ks[k]) by {
                    assert(ks[k] == keys@[k]@);
                }
                assert forall|k: int| j <= k < ks.len() implies text_le(#[trigger] ks[k], t.created_at@) by {
                    assert(ks[k] == keys@[k]@);
                }
                lemma_insert_keeps_order(ks, t.created_at@, j as int);
                assert(self@.transactions.subrange(0, i + 1) == self@.transactions.subrange(
                    0,
                    i as int,
                ).push(t));
            }
            let ghost before_keys = keys@;
            let ghost before_out = out@;
            keys.insert(j, t.created_at.clone());
            out.insert(j, t);
            proof {
                assert(texts(keys@) == texts(before_keys).insert(j as int, t.created_at@));
                assert(transaction_times(out@) == transaction_times(before_out).insert(
                    j as int,
                    t.created_at@,
                ));
                vstd::seq_lib::to_multiset_insert(before_out, j as int, t);
                vstd::seq_lib::to_multiset_build(self@.transactions.subrange(0, i as int), t);
            }
            i = i + 1;
        }
        proof {
            assert(self@.transactions.subrange(0, self@.transactions.len() as int)
                == self@.transactions);
        }
        out
    }

    /// Checks a request and, where it passes, writes the transaction and its
    /// entries under the given identifiers and time, all together. On any
    /// failure nothing is written.
    pub fn commit_transaction(
        &mut self,
        req: &CreateTransactionRequest,
        transaction_id: String,
        entry_ids: Vec<String>,
        now: String,
    ) -> (r: Result<TransactionWithEntries, AppError>)
        requires
            old(self)@.wf(),
        ensures
            final(self)@.wf(),
            match submission_error(old(self)@, *req) {
                Some(k) => fails_with(r, k) && final(self)@ == old(self)@,
                None => if ids_usable(old(self)@, transaction_id@, entry_ids@,
                    req.entries@.len() as int) {
                    &&& committed(old(self)@, final(self)@, *req, transaction_id, entry_ids@, now)
                    &&& r matches Ok(v) && shows(
                        v,
                        transaction_row(*req, transaction_id, now),
                        joined_entries(final(self)@.entries, final(self)@.accounts,
                            transaction_id@),
                    )
                } else {
                    fails_with(r, ErrorKind::Database) && final(self)@ == old(self)@
                },
            },
            r is Err ==> final(self)@ == old(self)@,
            req.entries@.len() == 0 ==> r is Err,
            reports_totals(r, *req),
            r is Ok ==> sum_atoms(requested_debits(req.entries@)) == sum_atoms(
                requested_credits(req.entries@),
            ),
            r matches Ok(v) ==> {
                &&& v.entries@.len() == req.entries@.len()
                &&& forall|i: int| 0 <= i < v.entries@.len() ==> {
                    let e = #[trigger] req.entries@[i];
                    let a = find_account(old(self)@.accounts, e.account_id@)->Some_0;
                    &&& v.entries@[i].account_id == e.account_id
                    &&& v.entries@[i].account_code == a.code
                    &&& v.entries@[i].account_name == a.name
                    &&& v.entries@[i].debit_amount == amount_or_zero(e.debit_amount)
                    &&& v.entries@[i].credit_amount == amount_or_zero(e.credit_amount)
                    &&& v.entries@[i].description == e.description
                }
            },
    {
        let checked = req.validate();
        if let Err(e) = checked {
            return Err(e);
        }
        let n = req.entries.len();
        if n == 0 {
            return Err(
                AppError::ValidationError(
                    String::from_str("Transaction must have at least one entry"),
                ),
            );
        }
        let (debits, credits) = requested_amounts(&req.entries);
        let debit_total = total(&debits);
        let credit_total = total(&credits);
        match (debit_total, credit_total) {
            (Some(d), Some(c)) => {
                if !d.same_value(&c) {
                    return Err(unbalanced_message(&d, &c));
                }
                proof {
                    lemma_total_is_exact(requested_debits(req.entries@));
                    lemma_total_is_exact(requested_credits(req.entries@));
                }
            },
            _ => {
                return Err(
                    AppError::ValidationError(
                        String::from_str("Total debits or total credits are out of range"),
                    ),
                );
            },
        }
        let mut i: usize = 0;
        while i < n
            invariant
                i <= n,
                n == req.entries@.len(),
                self@ == old(self)@,
                old(self)@.wf(),
                req.valid_spec(),
                is_balanced(req.entries@),
                sum_atoms(requested_debits(req.entries@))
                    == sum_atoms(requested_credits(req.entries@)),
                forall|j: int| 0 <= j < i ==> find_account(self@.accounts,
                    (#[trigger] req.entries@[j]).account_id@) is Some,
            decreases n - i,
        {
            if self.account_index(req.entries[i].account_id.as_str()).is_none() {
                return Err(AppError::NotFound(String::from_str("Account not found")));
            }
            i = i + 1;
        }
        if self.reference_index(req.reference.as_str()).is_some() {
            return Err(
                AppError::DatabaseError(
                    String::from_str("A transaction with this reference already exists"),
                ),
            );
        }
        if !self.ids_are_usable(&transaction_id, &entry_ids, n) {
            return Err(
                AppError::DatabaseError(
                    String::from_str("A generated identifier is already in use"),
                ),
            );
        }
        let ghost before = self@;
        let t = Transaction {
            id: transaction_id.clone(),
            reference: req.reference.clone(),
            description: req.description.clone(),
            transaction_date: match &req.transaction_date {
                Some(d) => d.clone(),
                None => now.clone(),
            },
            created_at: now.clone(),
            updated_at: now.clone(),
        };
        let mut rows: Vec<Entry> = Vec::new();
        let mut i: usize = 0;
        while i < n
            invariant
                i <= n,
                n == req.entries@.len(),
                self@ == old(self)@,
                rows@.len() == i,
                forall|k: int| 0 <= k < i ==> entry_row(
                    #[trigger] rows@[k],
                    req.entries@[k],
                    entry_ids@[k],
                    transaction_id,
                    now,
                ),
                entry_ids@.len() == n,
            decreases n - i,
        {
            let e = &req.entries[i];
            let d = amount_or_zero_exec(&e.debit_amount);
            let c = amount_or_zero_exec(&e.credit_amount);
            rows.push(
                Entry {
                    id: entry_ids[i].clone(),
                    transaction_id: transaction_id.clone(),
                    account_id: e.account_id.clone(),
                    debit_amount: d.to_text(),
                    credit_amount: c.to_text(),
                    description: copy_opt(&e.description),
                    created_at: now.clone(),
                },
            );
            i = i + 1;
        }
        let ghost new_rows = rows@;
        self.transactions.push(t);
        self.entries.append(&mut rows);
        proof {
            let m = before.entries.len() as int;
            assert(self@.entries.subrange(0, m) == before.entries);
            assert forall|k: int| 0 <= k < n implies entry_row(
                #[trigger] self@.entries[m + k],
                req.entries@[k],
                entry_ids@[k],
                transaction_id,
                now,
            ) by {
                assert(self@.entries[m + k] == new_rows[k]);
            }
            assert(committed(before, self@, *req, transaction_id, entry_ids@, now));
            lemma_read_back(before, self@, *req, transaction_id, entry_ids@, now);
            // the new transaction keeps ids and references unique
            lemma_find_first_result(before.transactions,
                transaction_with_reference(req.reference@));
            let ts = self@.transactions;
            assert forall|a: int, b: int| 0 <= a < b < ts.len() implies (#[trigger] ts[a]).id@ != (
            #[trigger] ts[b]).id@ && ts[a].reference@ != ts[b].reference@ by {
                if b == ts.len() - 1 {
                    assert(ts[a] == before.transactions[a]);
                } else {
                    assert(ts[a] == before.transactions[a] && ts[b] == before.transactions[b]);
                }
            }
            // the new entries keep entry ids unique
            let es = self@.entries;
            assert forall|a: int, b: int| 0 <= a < b < es.len() implies (#[trigger] es[a]).id@ != (
            #[trigger] es[b]).id@ by {
                if b >= m {
                    assert(entry_row(es[m + (b - m)], req.entries@[b - m], entry_ids@[b - m],
                        transaction_id, now));
                    if a >= m {
                        assert(entry_row(es[m + (a - m)], req.entries@[a - m], entry_ids@[a - m],
                            transaction_id, now));
                    } else {
                        assert(es[a] == before.entries[a]);
                    }
                } else {
                    assert(es[a] == before.entries[a] && es[b] == before.entries[b]);
                }
            }
        }
        let k = self.transactions.len() - 1;
        Ok(self.transaction_view(k))
    }

    /// Submits a transaction: the checks and the commit of
    /// `commit_transaction`, under fresh identifiers and the present time.
    /// Where the checks pass it fails only where a drawn identifier is
    /// already in use.
    pub fn submit_transaction(&mut self, req: &CreateTransactionRequest) -> (r: Result<
        TransactionWithEntries,
        AppError,
    >)
        requires
            old(self)@.wf(),
        ensures
            final(self)@.wf(),
            match submission_error(old(self)@, *req) {
                Some(k) => fails_with(r, k),
                None => r is Ok || fails_with(r, ErrorKind::Database),
            },
            r is Err ==> final(self)@ == old(self)@,
            r matches Ok(v) ==> exists|transaction_id: String, entry_ids: Seq<String>, now: String|
                {
                    &&& #[trigger] committed(old(self)@, final(self)@, *req, transaction_id,
                        entry_ids, now)
                    &&& ids_usable(old(self)@, transaction_id@, entry_ids, req.entries@.len() as int)
                    &&& shows(
                        v,
                        transaction_row(*req, transaction_id, now),
                        joined_entries(final(self)@.entries, final(self)@.accounts,
                            transaction_id@),
                    )
                },
            submission_error(old(self)@, *req) is None && old(self)@.transactions.len() == 0
                && old(self)@.entries.len() == 0 && req.entries@.len() == 1 ==> r is Ok,
            req.entries@.len() == 0 ==> r is Err,
            reports_totals(r, *req),
            r is Ok ==> sum_atoms(requested_debits(req.entries@)) == sum_atoms(
                requested_credits(req.entries@),
            ),
            r matches Ok(v) ==> {
                &&& v.entries@.len() == req.entries@.len()
                &&& forall|i: int| 0 <= i < v.entries@.len() ==> {
                    let e = #[trigger] req.entries@[i];
                    let a = find_account(old(self)@.accounts, e.account_id@)->Some_0;
                    &&& v.entries@[i].account_id == e.account_id
                    &&& v.entries@[i].account_code == a.code
                    &&& v.entries@[i].account_name == a.name
                    &&& v.entries@[i].debit_amount == amount_or_zero(e.debit_amount)
                    &&& v.entries@[i].credit_amount == amount_or_zero(e.credit_amount)
                    &&& v.entries@[i].description == e.description
                }
            },
    {
        let transaction_id = fresh_id();
        let mut entry_ids: Vec<String> = Vec::new();
        let mut i: usize = 0;
        while i < req.entries.len()
            invariant
                i <= req.entries@.len(),
                entry_ids@.len() == i,
            decreases req.entries@.len() - i,
        {
            entry_ids.push(fresh_id());
            i = i + 1;
        }
        let now = now_text();
        let ghost tid = transaction_id;
        let ghost eids = entry_ids@;
        proof {
            if self@.transactions.len() == 0 && self@.entries.len() == 0 && req.entries@.len()
                == 1 {
                assert(ids_usable(self@, tid@, eids, 1));
            }
        }
        let r = self.commit_transaction(req, transaction_id, entry_ids, now);
        proof {
            if r is Ok {
                let v = r->Ok_0;
                assert(shows(
                    v,
                    transaction_row(*req, tid, now),
                    joined_entries(self@.entries, self@.accounts, tid@),
                ));
            }
        }
        r
    }

    /// Removes the transaction with the given id together with all its
    /// entries.
    pub fn delete_transaction(&mut self, id: &str) -> (r: Result<(), AppError>)
        requires
            old(self)@.wf(),
        ensures
            final(self)@.wf(),
            find_transaction(old(self)@.transactions, id@) is None ==> fails_with(
                r,
                ErrorKind::NotFound,
            ) && final(self)@ == old(self)@,
            find_transaction(old(self)@.transactions, id@) is Some ==> {
                &&& r is Ok
                &&& final(self)@.accounts == old(self)@.accounts
                &&& final(self)@.transactions == old(self)@.transactions.filter(
                    transaction_without_id(id@),
                )
                &&& final(self)@.entries == old(self)@.entries.filter(entry_outside(id@))
            },
            r is Ok ==> find_transaction(final(self)@.transactions, id@) is None,
            r is Ok ==> forall|k: int|
                0 <= k < final(self)@.entries.len()
                    ==> (#[trigger] final(self)@.entries[k]).transaction_id@
                    != id@,
            r is Ok ==> joined_entries(final(self)@.entries, final(self)@.accounts, id@).len() == 0,
    {
        if self.transaction_index(id).is_none() {
            return Err(AppError::NotFound(String::from_str("Transaction not found")));
        }
        let ghost before = self@;
        let mut kept: Vec<Transaction> = Vec::new();
        let mut i: usize = 0;
        while i < self.transactions.len()
            invariant
                i <= self@.transactions.len(),
                self@ == before,
                kept@ == self@.transactions.subrange(0,
                    i as int).filter(transaction_without_id(id@)),
            decreases self@.transactions.len() - i,
        {
            proof {
                self@.transactions.subrange(0, i as int).lemma_filter_push(
                    self@.transactions[i as int],
                    transaction_without_id(id@),
                );
                assert(self@.transactions.subrange(0, i as int).push(self@.transactions[i as int])
                    == self@.transactions.subrange(0, i + 1));
            }
            if !same_text(self.transactions[i].id.as_str(), id) {
                kept.push(copy_transaction(&self.transactions[i]));
            }
            i = i + 1;
        }
        let mut kept_entries: Vec<Entry> = Vec::new();
        let mut i: usize = 0;
        while i < self.entries.len()
            invariant
                i <= self@.entries.len(),
                self@ == before,
                kept_entries@ == self@.entries.subrange(0, i as int).filter(entry_outside(id@)),
            decreases self@.entries.len() - i,
        {
            proof {
                self@.entries.subrange(0, i as int).lemma_filter_push(
                    self@.entries[i as int],
                    entry_outside(id@),
                );
                assert(self@.entries.subrange(0, i as int).push(self@.entries[i as int])
                    == self@.entries.subrange(0, i + 1));
            }
            if !same_text(self.entries[i].transaction_id.as_str(), id) {
                kept_entries.push(copy_entry(&self.entries[i]));
            }
            i = i + 1;
        }
        proof {
            assert(self@.transactions.subrange(0, self@.transactions.len() as int)
                == self@.transactions);
            assert(self@.entries.subrange(0, self@.entries.len() as int) == self@.entries);
            lemma_filter_distinct(before.transactions, transaction_without_id(id@),
                transaction_id_key());
            lemma_filter_distinct(before.transactions, transaction_without_id(id@),
                transaction_reference_key());
            lemma_filter_distinct(before.entries, entry_outside(id@), entry_id_key());
        }
        self.transactions = kept;
        self.entries = kept_entries;
        proof {
            assert forall|k: int| 0 <= k < self@.transactions.len() implies !(transaction_with_id(
                id@,
            ))(
                #[trigger] self@.transactions[k],
            ) by {
                before.transactions.lemma_filter_pred(transaction_without_id(id@), k);
            }
            lemma_find_first_none(self@.transactions, transaction_with_id(id@));
            assert forall|k: int| 0 <= k < self@.entries.len() implies (#[trigger] self@.entries[
                k
            ]).transaction_id@ != id@ by {
                before.entries.lemma_filter_pred(entry_outside(id@), k);
            }
            lemma_joined_none(self@.entries, self@.accounts, id@);
        }
        Ok(())
    }

    /// The stored debits and credits of an account.
    fn amounts_of_account(&self, account_id: &str) -> (r: (Vec<Amount>, Vec<Amount>))
        ensures
            r.0@ == account_debits(self@.entries, account_id@),
            r.1@ == account_credits(self@.entries, account_id@),
    {
        let mut debits: Vec<Amount> = Vec::new();
        let mut credits: Vec<Amount> = Vec::new();
        let mut i: usize = 0;
        while i < self.entries.len()
            invariant
                i <= self@.entries.len(),
                debits@ == account_debits(self@.entries.subrange(0, i as int), account_id@),
                credits@ == account_credits(self@.entries.subrange(0, i as int), account_id@),
            decreases self@.entries.len() - i,
        {
            let ghost prefix = self@.entries.subrange(0, i as int);
            let ghost x = self@.entries[i as int];
            proof {
                prefix.lemma_filter_push(x, entry_of_account(account_id@));
                assert(prefix.push(x) == self@.entries.subrange(0, i + 1));
                let f = prefix.filter(entry_of_account(account_id@));
                assert(f.push(x).map_values(|e: Entry| stored_debit(e)) == f.map_values(
                    |e: Entry| stored_debit(e),
                ).push(stored_debit(x)));
                assert(f.push(x).map_values(|e: Entry| stored_credit(e)) == f.map_values(
                    |e: Entry| stored_credit(e),
                ).push(stored_credit(x)));
            }
            let e = &self.entries[i];
            if same_text(e.account_id.as_str(), account_id) {
                debits.push(Amount::from_stored_text(e.debit_amount.as_str()));
                credits.push(Amount::from_stored_text(e.credit_amount.as_str()));
            }
            i = i + 1;
        }
        assert(self@.entries.subrange(0, self@.entries.len() as int) == self@.entries);
        (debits, credits)
    }

    /// The totals and balance of an account of the store.
    fn balance_for(&self, a: &Account) -> (r: Option<AccountBalance>)
        ensures
            r == balance_of(*a, self@.entries),
    {
        let (debits, credits) = self.amounts_of_account(a.id.as_str());
        let d = match total(&debits) {
            Some(d) => d,
            None => {
                return None;
            },
        };
        let c = match total(&credits) {
            Some(c) => c,
            None => {
                return None;
            },
        };
        match signed_balance(a.account_type.as_str(), &d, &c) {
            Some(b) => Some(
                AccountBalance {
                    account_id: a.id.clone(),
                    account_code: a.code.clone(),
                    account_name: a.name.clone(),
                    account_type: a.account_type.clone(),
                    debit_total: d,
                    credit_total: c,
                    balance: b,
                },
            ),
            None => None,
        }
    }

    /// The balance of the account with the given id, recomputed from the
    /// stored entries.
    pub fn account_balance(&self, account_id: &str) -> (r: Result<AccountBalance, AppError>)
        ensures
            match balance_query(self@, account_id@) {
                Ok(b) => r == Ok::<AccountBalance, AppError>(b),
                Err(k) => fails_with(r, k),
            },
    {
        match self.account_index(account_id) {
            None => Err(AppError::NotFound(String::from_str("Record not found"))),
            Some(k) => match self.balance_for(&self.accounts[k]) {
                Some(b) => Ok(b),
                None => Err(
                    AppError::InternalServerError(String::from_str("Balance is out of range")),
                ),
            },
        }
    }

    /// The balances of every account, or of the accounts whose stored kind is
    /// `account_type` where it is given, in table order.
    pub fn balances(&self, account_type: &Option<String>) -> (r: Result<Vec<AccountBalance>,
        AppError>)
        ensures
            match balances_of(self@.accounts.filter(account_of_type(*account_type)),
                self@.entries) {
                Some(s) => r matches Ok(v) && v@ == s,
                None => fails_with(r, ErrorKind::Internal),
            },
    {
        let ghost p = account_of_type(*account_type);
        let mut listed: Vec<Account> = Vec::new();
        let mut i: usize = 0;
        while i < self.accounts.len()
            invariant
                i <= self@.accounts.len(),
                p == account_of_type(*account_type),
                listed@ == self@.accounts.subrange(0, i as int).filter(p),
            decreases self@.accounts.len() - i,
        {
            proof {
                self@.accounts.subrange(0, i as int).lemma_filter_push(self@.accounts[i as int], p);
                assert(self@.accounts.subrange(0, i as int).push(self@.accounts[i as int])
                    == self@.accounts.subrange(0, i + 1));
            }
            let a = &self.accounts[i];
            let wanted = match account_type {
                Some(t) => same_text(a.account_type.as_str(), t.as_str()),
                None => true,
            };
            if wanted {
                listed.push(copy_account(a));
            }
            i = i + 1;
        }
        assert(self@.accounts.subrange(0, self@.accounts.len() as int) == self@.accounts);
        let mut out: Vec<AccountBalance> = Vec::new();
        let mut i: usize = 0;
        while i < listed.len()
            invariant
                i <= listed@.len(),
                listed@ == self@.accounts.filter(account_of_type(*account_type)),
                balances_of(listed@.subrange(0, i as int), self@.entries) == Some(out@),
            decreases listed@.len() - i,
        {
            assert(listed@.subrange(0, i + 1).drop_last() == listed@.subrange(0, i as int));
            match self.balance_for(&listed[i]) {
                Some(b) => {
                    out.push(b);
                },
                None => {
                    proof {
                        lemma_balances_none_stays(listed@, self@.entries, i + 1);
                    }
                    return Err(
                        AppError::InternalServerError(String::from_str("Balance is out of range")),
                    );
                },
            }
            i = i + 1;
        }
        assert(listed@.subrange(0, listed@.len() as int) == listed@);
        Ok(out)
    }

    /// Changes the fields of an account that the request gives, and stamps
    /// it with the present time. Fails, changing nothing, on a malformed
    /// request, an unknown id, or a code that another account holds.
    pub fn update_account(&mut self, id: &str, req: &UpdateAccountRequest) -> (r: Result<Account,
        AppError>)
        requires
            old(self)@.wf(),
        ensures
            final(self)@.wf(),
            final(self)@.transactions == old(self)@.transactions,
            final(self)@.entries == old(self)@.entries,
            r is Err ==> final(self)@ == old(self)@,
            !req.valid_spec() ==> fails_with(r, ErrorKind::Validation),
            req.valid_spec() && find_account(old(self)@.accounts, id@) is None ==> fails_with(
                r,
                ErrorKind::NotFound,
            ),
            req.valid_spec() && find_account(old(self)@.accounts, id@) is Some
                && (req.code matches Some(
                c,
            ) && exists|j: int|
                0 <= j < old(self)@.accounts.len() && (#[trigger] old(self)@.accounts[j]).code@
                    == c@
                    && old(self)@.accounts[j].id@ != id@) ==> fails_with(r, ErrorKind::Database),
            req.valid_spec() && find_account(old(self)@.accounts, id@) is Some
                && !(req.code matches Some(
                c,
            ) && exists|j: int|
                0 <= j < old(self)@.accounts.len() && (#[trigger] old(self)@.accounts[j]).code@
                    == c@
                    && old(self)@.accounts[j].id@ != id@) ==> r is Ok,
            r matches Ok(n) ==> exists|k: int|
                0 <= k < old(self)@.accounts.len() && (#[trigger] old(self)@.accounts[k]).id@ == id@
                    && final(self)@.accounts == old(self)@.accounts.update(k, n) && updated_account(
                    n,
                    old(self)@.accounts[k],
                    *req,
                    n.updated_at,
                ),
    {
        let checked = req.validate();
        if let Err(e) = checked {
            return Err(e);
        }
        let k = match self.account_index(id) {
            Some(k) => k,
            None => {
                return Err(AppError::NotFound(String::from_str("Record not found")));
            },
        };
        proof {
            lemma_find_first_result(self@.accounts, account_with_id(id@));
        }
        if let Some(c) = &req.code {
            match self.code_index(c.as_str()) {
                Some(j) => {
                    if j != k {
                        return Err(
                            AppError::DatabaseError(
                                String::from_str("Another account holds this code"),
                            ),
                        );
                    }
                },
                None => {},
            }
            proof {
                // the only account that may hold the code is the one updated
                assert forall|j: int| 0 <= j < self@.accounts.len()
                    && (#[trigger] self@.accounts[j]).code@ == c@ implies self@.accounts[j].id@
                    == id@ by {
                    if j != k {
                        assert(self@.accounts[k as int].id@ == id@);
                    }
                }
            }
        }
        let now = now_text();
        let a = &self.accounts[k];
        let n = Account {
            id: a.id.clone(),
            code: match &req.code {
                Some(c) => c.clone(),
                None => a.code.clone(),
            },
            name: match &req.name {
                Some(x) => x.clone(),
                None => a.name.clone(),
            },
            account_type: match &req.account_type {
                Some(t) => t.name(),
                None => a.account_type.clone(),
            },
            parent_id: match &req.parent_id {
                Some(p) => Some(p.clone()),
                None => copy_opt(&a.parent_id),
            },
            is_active: match req.is_active {
                Some(b) => b,
                None => a.is_active,
            },
            created_at: a.created_at.clone(),
            updated_at: now,
        };
        let ghost before = self@;
        let kept = copy_account(&n);
        self.accounts.set(k, kept);
        proof {
            assert(self@.accounts[k as int].id@ == id@);
            let s = self@.accounts;
            assert forall|i: int, j: int| 0 <= i < j < s.len() implies (#[trigger] s[i]).id@ != (
            #[trigger] s[j]).id@ && s[i].code@ != s[j].code@ by {
                if i != k && j != k {
                    assert(s[i] == before.accounts[i] && s[j] == before.accounts[j]);
                } else if i == k {
                    assert(s[j] == before.accounts[j]);
                    assert(before.accounts[i] == before.accounts[k as int]);
                } else {
                    assert(s[i] == before.accounts[i]);
                }
            }
            assert(updated_account(n, before.accounts[k as int], *req, n.updated_at));
        }
        Ok(n)
    }

    /// A store holding the given rows, where their keys are unique (see
    /// `LedgerView::wf`).
    pub fn restore(
        accounts: Vec<Account>,
        transactions: Vec<Transaction>,
        entries: Vec<Entry>,
    ) -> (r: Result<Ledger, AppError>)
        ensures
            ({
                let v = LedgerView { accounts: accounts@, transactions: transactions@,
                    entries: entries@ };
                &&& v.wf() ==> (r matches Ok(l) && l@ == v)
                &&& !v.wf() ==> fails_with(r, ErrorKind::Database)
            }),
    {
        let ok = keys_distinct_accounts(&accounts) && keys_distinct_transactions(&transactions)
            && keys_distinct_entries(&entries);
        if !ok {
            return Err(
                AppError::DatabaseError(String::from_str("The stored rows repeat an identifier, code or reference")),
            );
        }
        Ok(Ledger { accounts, transactions, entries })
    }

    /// Copies of all rows, in table order.
    pub fn rows(&self) -> (r: (Vec<Account>, Vec<Transaction>, Vec<Entry>))
        ensures
            r.0@ == self@.accounts,
            r.1@ == self@.transactions,
            r.2@ == self@.entries,
    {
        let mut a: Vec<Account> = Vec::new();
        let mut i: usize = 0;
        while i < self.accounts.len()
            invariant
                i <= self@.accounts.len(),
                a@ == self@.accounts.subrange(0, i as int),
            decreases self@.accounts.len() - i,
        {
            a.push(copy_account(&self.accounts[i]));
            i = i + 1;
        }
        let mut t: Vec<Transaction> = Vec::new();
        let mut i: usize = 0;
        while i < self.transactions.len()
            invariant
                i <= self@.transactions.len(),
                t@ == self@.transactions.subrange(0, i as int),
            decreases self@.transactions.len() - i,
        {
            t.push(copy_transaction(&self.transactions[i]));
            i = i + 1;
        }
        let mut e: Vec<Entry> = Vec::new();
        let mut i: usize = 0;
        while i < self.entries.len()
            invariant
                i <= self@.entries.len(),
                e@ == self@.entries.subrange(0, i as int),
            decreases self@.entries.len() - i,
        {
            e.push(copy_entry(&self.entries[i]));
            i = i + 1;
        }
        assert(a@ == self@.accounts.subrange(0, self@.accounts.len() as int));
        assert(t@ == self@.transactions.subrange(0, self@.transactions.len() as int));
        assert(e@ == self@.entries.subrange(0, self@.entries.len() as int));
        (a, t, e)
    }

    /// Removes the account with the given id. Entries that refer to it stay.
    pub fn delete_account(&mut self, id: &str) -> (r: Result<(), AppError>)
        requires
            old(self)@.wf(),
        ensures
            final(self)@.wf(),
            final(self)@.transactions == old(self)@.transactions,
            final(self)@.entries == old(self)@.entries,
            find_account(old(self)@.accounts, id@) is None ==> fails_with(r, ErrorKind::NotFound)
                && final(self)@ == old(self)@,
            find_account(old(self)@.accounts, id@) is Some ==> r is Ok && final(self)@.accounts
                == old(self)@.accounts.filter(account_without_id(id@)),
    {
        if self.account_index(id).is_none() {
            return Err(AppError::NotFound(String::from_str("Account not found")));
        }
        let ghost before = self@;
        let mut kept: Vec<Account> = Vec::new();
        let mut i: usize = 0;
        while i < self.accounts.len()
            invariant
                i <= self@.accounts.len(),
                self@ == before,
                kept@ == self@.accounts.subrange(0, i as int).filter(account_without_id(id@)),
            decreases self@.accounts.len() - i,
        {
            proof {
                self@.accounts.subrange(0, i as int).lemma_filter_push(self@.accounts[i as int],
                    account_without_id(id@));
                assert(self@.accounts.subrange(0, i as int).push(self@.accounts[i as int])
                    == self@.accounts.subrange(0, i + 1));
            }
            let drop = same_text(self.accounts[i].id.as_str(), id);

            if !drop {
                kept.push(copy_account(&self.accounts[i]));
            }
            i = i + 1;
        }
        proof {
            assert(self@.accounts.subrange(0, self@.accounts.len() as int) == self@.accounts);
            lemma_filter_distinct(before.accounts, account_without_id(id@), account_id_key());
            lemma_filter_distinct(before.accounts, account_without_id(id@), account_code_key());
        }
        self.accounts = kept;
        Ok(())
    }
}

} // verus!

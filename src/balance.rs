//! The balance calculator: totals of the stored entries of an account, signed
//! by the kind of the account.

use vstd::prelude::*;

use crate::amount::{total_of, Amount};
use crate::errors::ErrorKind;
use crate::ledger::{find_account, LedgerView};
use crate::models::{Account, AccountBalance, AccountType, Entry};
use crate::table::lemma_find_first_result;

verus! {

broadcast use vstd::seq_lib::group_filter_ensures;

pub open spec fn entry_of_account(account_id: Seq<char>) -> spec_fn(Entry) -> bool {
    |e: Entry| e.account_id@ == account_id
}

pub open spec fn stored_debit(e: Entry) -> Amount {
    Amount::stored_spec(e.debit_amount@)
}

pub open spec fn stored_credit(e: Entry) -> Amount {
    Amount::stored_spec(e.credit_amount@)
}

/// The debits stored against an account, in table order.
pub open spec fn account_debits(entries: Seq<Entry>, account_id: Seq<char>) -> Seq<Amount> {
    entries.filter(entry_of_account(account_id)).map_values(|e: Entry| stored_debit(e))
}

/// The credits stored against an account, in table order.
pub open spec fn account_credits(entries: Seq<Entry>, account_id: Seq<char>) -> Seq<Amount> {
    entries.filter(entry_of_account(account_id)).map_values(|e: Entry| stored_credit(e))
}

/// The balance of an account of the named kind: debits less credits for
/// assets and expenses, credits less debits for liabilities, equity and
/// revenue, and debits less credits for a name that is no kind.
pub open spec fn signed_balance_spec(
    account_type: Seq<char>,
    debit_total: Amount,
    credit_total: Amount,
) -> Option<Amount> {
    match AccountType::from_name_spec(account_type) {
        Some(t) => if t.credit_normal_spec() {
            credit_total.difference_spec(debit_total)
        } else {
            debit_total.difference_spec(credit_total)
        },
        None => debit_total.difference_spec(credit_total),
    }
}

/// The totals and balance of an account over the stored entries; `None`
/// where a total or the balance leaves the range of an amount.
pub open spec fn balance_of(a: Account, entries: Seq<Entry>) -> Option<AccountBalance> {
    match (total_of(account_debits(entries, a.id@)), total_of(account_credits(entries, a.id@))) {
        (Some(d), Some(c)) => match signed_balance_spec(a.account_type@, d, c) {
            Some(b) => Some(
                AccountBalance {
                    account_id: a.id,
                    account_code: a.code,
                    account_name: a.name,
                    account_type: a.account_type,
                    debit_total: d,
                    credit_total: c,
                    balance: b,
                },
            ),
            None => None,
        },
        _ => None,
    }
}

/// What a balance query on an account id answers.
pub open spec fn balance_query(
    l: LedgerView,
    account_id: Seq<char>,
) -> Result<AccountBalance, ErrorKind> {
    match find_account(l.accounts, account_id) {
        None => Err(ErrorKind::NotFound),
        Some(a) => match balance_of(a, l.entries) {
            Some(b) => Ok(b),
            None => Err(ErrorKind::Internal),
        },
    }
}

/// The balances of the accounts, in order; `None` where one of them has none.
pub open spec fn balances_of(
    accounts: Seq<Account>,
    entries: Seq<Entry>,
) -> Option<Seq<AccountBalance>>
    decreases accounts.len(),
{
    if accounts.len() == 0 {
        Some(Seq::empty())
    } else {
        match (balances_of(accounts.drop_last(), entries), balance_of(accounts.last(), entries)) {
            (Some(s), Some(b)) => Some(s.push(b)),
            _ => None,
        }
    }
}

pub open spec fn account_of_type(account_type: Option<String>) -> spec_fn(Account) -> bool {
    |a: Account| match account_type {
        Some(t) => a.account_type@ == t@,
        None => true,
    }
}

/// A balance is a function of the account and of its own stored entries:
/// two stores that hold the same account under the id, and the same entries
/// for it, answer a balance query on it alike, whatever else they hold, and
/// however often they are asked.
pub proof fn lemma_balance_depends_on_own_entries(
    l1: LedgerView,
    l2: LedgerView,
    account_id: Seq<char>,
)
    requires
        find_account(l1.accounts, account_id) == find_account(l2.accounts, account_id),
        l1.entries.filter(entry_of_account(account_id)) == l2.entries.filter(
            entry_of_account(account_id),
        ),
    ensures
        balance_query(l1, account_id) == balance_query(l2, account_id),
{
    lemma_find_first_result(l1.accounts, crate::ledger::account_with_id(account_id));
}

pub(crate) proof fn lemma_balances_none_stays(s: Seq<Account>, entries: Seq<Entry>, k: int)
    requires
        0 <= k <= s.len(),
        balances_of(s.subrange(0, k), entries) is None,
    ensures
        balances_of(s, entries) is None,
    decreases s.len() - k,
{
    if k < s.len() {
        assert(s.subrange(0, k + 1).drop_last() == s.subrange(0, k));
        lemma_balances_none_stays(s, entries, k + 1);
    } else {
        assert(s.subrange(0, k) == s);
    }
}

/// The signed balance of an account of the named kind (see
/// `signed_balance_spec`).
pub fn signed_balance(
    account_type: &str,
    debit_total: &Amount,
    credit_total: &Amount,
) -> (r: Option<Amount>)
    ensures
        r == signed_balance_spec(account_type@, *debit_total, *credit_total),
{
    match AccountType::from_name(account_type) {
        Some(t) => if t.is_credit_normal() {
            credit_total.checked_sub(debit_total)
        } else {
            debit_total.checked_sub(credit_total)
        },
        None => debit_total.checked_sub(credit_total),
    }
}

} // verus!

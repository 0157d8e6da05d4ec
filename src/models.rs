use vstd::prelude::*;

use crate::amount::Amount;
use crate::errors::AppError;
use crate::text::{length_within, same_text};

verus! {

/// The kind of an account, which fixes the sign of its balance.
#[derive(Clone, Copy, Debug, PartialEq, Eq, Structural)]
pub enum AccountType {
    Asset,
    Liability,
    Equity,
    Revenue,
    Expense,
}

impl AccountType {
    /// The name under which the kind is written and stored.
    pub open spec fn name_spec(self) -> Seq<char> {
        match self {
            AccountType::Asset => "asset"@,
            AccountType::Liability => "liability"@,
            AccountType::Equity => "equity"@,
            AccountType::Revenue => "revenue"@,
            AccountType::Expense => "expense"@,
        }
    }

    /// The kind with the given name; no other text names one.
    pub open spec fn from_name_spec(s: Seq<char>) -> Option<AccountType> {
        if s == "asset"@ {
            Some(AccountType::Asset)
        } else if s == "liability"@ {
            Some(AccountType::Liability)
        } else if s == "equity"@ {
            Some(AccountType::Equity)
        } else if s == "revenue"@ {
            Some(AccountType::Revenue)
        } else if s == "expense"@ {
            Some(AccountType::Expense)
        } else {
            None
        }
    }

    /// Liability, equity and revenue accounts grow with credits; asset and
    /// expense accounts grow with debits.
    pub open spec fn credit_normal_spec(self) -> bool {
        match self {
            AccountType::Liability | AccountType::Equity | AccountType::Revenue => true,
            AccountType::Asset | AccountType::Expense => false,
        }
    }

    /// Each kind is read back from its own name.
    pub proof fn lemma_name_round_trip(t: AccountType)
        ensures
            Self::from_name_spec(t.name_spec()) == Some(t),
    {
        reveal_strlit("asset");
        reveal_strlit("liability");
        reveal_strlit("equity");
        reveal_strlit("revenue");
        reveal_strlit("expense");
        assert("asset"@.len() == 5);
        assert("liability"@.len() == 9);
        assert("equity"@.len() == 6);
        assert("revenue"@.len() == 7);
        assert("expense"@.len() == 7);
        assert("revenue"@[0] != "expense"@[0]);
    }

    pub fn name(&self) -> (r: String)
        ensures
            r@ == self.name_spec(),
            Self::from_name_spec(r@) == Some(*self),
    {
        let r = match self {
            AccountType::Asset => String::from_str("asset"),
            AccountType::Liability => String::from_str("liability"),
            AccountType::Equity => String::from_str("equity"),
            AccountType::Revenue => String::from_str("revenue"),
            AccountType::Expense => String::from_str("expense"),
        };
        proof {
            Self::lemma_name_round_trip(*self);
        }
        r
    }

    /// Reads a kind strictly: a text that names none gives `None`.
    pub fn from_name(s: &str) -> (r: Option<AccountType>)
        ensures
            r == Self::from_name_spec(s@),
    {
        if same_text(s, "asset") {
            Some(AccountType::Asset)
        } else if same_text(s, "liability") {
            Some(AccountType::Liability)
        } else if same_text(s, "equity") {
            Some(AccountType::Equity)
        } else if same_text(s, "revenue") {
            Some(AccountType::Revenue)
        } else if same_text(s, "expense") {
            Some(AccountType::Expense)
        } else {
            None
        }
    }

    pub fn is_credit_normal(&self) -> (r: bool)
        ensures
            r == self.credit_normal_spec(),
    {
        match self {
            AccountType::Liability | AccountType::Equity | AccountType::Revenue => true,
            AccountType::Asset | AccountType::Expense => false,
        }
    }
}

/// The name of the kind (see `AccountType::name`).
impl From<AccountType> for String {
    fn from(t: AccountType) -> (r: String)
        ensures
            r@ == t.name_spec(),
    {
        t.name()
    }
}

impl vstd::std_specs::convert::FromSpecImpl<AccountType> for String {
    open spec fn obeys_from_spec() -> bool {
        false
    }

    open spec fn from_spec(t: AccountType) -> String {
        arbitrary()
    }
}

/// A stored account.
#[derive(Debug, Clone)]
pub struct Account {
    pub id: String,
    pub code: String,
    pub name: String,
    pub account_type: String,
    pub parent_id: Option<String>,
    pub is_active: bool,
    pub created_at: String,
    pub updated_at: String,
}

/// An account as it is handed to the store.
#[derive(Debug, Clone)]
pub struct NewAccount {
    pub id: String,
    pub code: String,
    pub name: String,
    pub account_type: String,
    pub parent_id: Option<String>,
    pub is_active: bool,
    pub created_at: String,
    pub updated_at: String,
}

#[derive(Debug)]
pub struct CreateAccountRequest {
    pub code: String,
    pub name: String,
    pub account_type: AccountType,
    pub parent_id: Option<String>,
}

/// A change to an account: the fields that are `Some` are replaced.
#[derive(Debug)]
pub struct UpdateAccountRequest {
    pub code: Option<String>,
    pub name: Option<String>,
    pub account_type: Option<AccountType>,
    pub parent_id: Option<String>,
    pub is_active: Option<bool>,
}

/// A stored transaction.
#[derive(Debug, Clone)]
pub struct Transaction {
    pub id: String,
    pub reference: String,
    pub description: String,
    pub transaction_date: String,
    pub created_at: String,
    pub updated_at: String,
}

#[derive(Debug)]
pub struct CreateTransactionRequest {
    pub reference: String,
    pub description: String,
    pub transaction_date: Option<String>,
    pub entries: Vec<CreateEntryRequest>,
}

/// A transaction as it is handed to the store.
#[derive(Debug, Clone)]
pub struct NewTransaction {
    pub id: String,
    pub reference: String,
    pub description: String,
    pub transaction_date: String,
    pub created_at: String,
    pub updated_at: String,
}

/// A stored entry; its amounts are kept as decimal text.
#[derive(Debug, Clone)]
pub struct Entry {
    pub id: String,
    pub transaction_id: String,
    pub account_id: String,
    pub debit_amount: String,
    pub credit_amount: String,
    pub description: Option<String>,
    pub created_at: String,
}

#[derive(Debug)]
pub struct CreateEntryRequest {
    pub account_id: String,
    pub debit_amount: Option<Amount>,
    pub credit_amount: Option<Amount>,
    pub description: Option<String>,
}

/// An entry as it is handed to the store.
#[derive(Debug, Clone)]
pub struct NewEntry {
    pub id: String,
    pub transaction_id: String,
    pub account_id: String,
    pub debit_amount: String,
    pub credit_amount: String,
    pub description: Option<String>,
    pub created_at: String,
}

/// The totals and the signed balance of one account.
#[derive(Debug)]
pub struct AccountBalance {
    pub account_id: String,
    pub account_code: String,
    pub account_name: String,
    pub account_type: String,
    pub debit_total: Amount,
    pub credit_total: Amount,
    pub balance: Amount,
}

/// A transaction read back with its entries and their accounts.
#[derive(Debug)]
pub struct TransactionWithEntries {
    pub id: String,
    pub reference: String,
    pub description: String,
    pub transaction_date: String,
    pub created_at: String,
    pub updated_at: String,
    pub entries: Vec<EntryWithAccount>,
}

/// An entry joined with the code and name of its account.
#[derive(Debug)]
pub struct EntryWithAccount {
    pub id: String,
    pub transaction_id: String,
    pub account_id: String,
    pub account_code: String,
    pub account_name: String,
    pub debit_amount: Amount,
    pub credit_amount: Amount,
    pub description: Option<String>,
    pub created_at: String,
}

/// The filters of a balance listing.
#[derive(Debug)]
pub struct BalanceQuery {
    pub account_id: Option<String>,
    pub account_type: Option<String>,
    pub from_date: Option<String>,
    pub to_date: Option<String>,
}

/// The envelope of every outward result.
#[derive(Debug)]
pub struct ApiResponse<T> {
    pub success: bool,
    pub data: Option<T>,
    pub message: Option<String>,
    pub errors: Option<Vec<String>>,
}

impl<T> ApiResponse<T> {
    pub fn success(data: T) -> (r: Self)
        ensures
            r.success,
            r.data == Some(data),
            r.message is None,
            r.errors is None,
    {
        ApiResponse { success: true, data: Some(data), message: None, errors: None }
    }

    pub fn error(message: String) -> (r: Self)
        ensures
            !r.success,
            r.data is None,
            r.message == Some(message),
            r.errors is None,
    {
        ApiResponse { success: false, data: None, message: Some(message), errors: None }
    }

    pub fn validation_errors(errors: Vec<String>) -> (r: Self)
        ensures
            !r.success,
            r.data is None,
            r.message matches Some(m) && m@ == "Validation failed"@,
            r.errors == Some(errors),
    {
        ApiResponse {
            success: false,
            data: None,
            message: Some(String::from_str("Validation failed")),
            errors: Some(errors),
        }
    }
}

fn validation_error(message: &str) -> (r: AppError)
    ensures
        r.kind_spec() == crate::errors::ErrorKind::Validation,
{
    AppError::ValidationError(String::from_str(message))
}

impl CreateAccountRequest {
    /// A code of 1 to 20 characters and a name of 1 to 255.
    pub open spec fn valid_spec(&self) -> bool {
        &&& 1 <= self.code@.len() <= 20
        &&& 1 <= self.name@.len() <= 255
    }

    pub fn validate(&self) -> (r: Result<(), AppError>)
        ensures
            r is Ok <==> self.valid_spec(),
            r matches Err(e) ==> e.kind_spec() == crate::errors::ErrorKind::Validation,
    {
        if !length_within(&self.code, 1, 20) {
            return Err(validation_error("Validation failed: code must have 1 to 20 characters"));
        }
        if !length_within(&self.name, 1, 255) {
            return Err(validation_error("Validation failed: name must have 1 to 255 characters"));
        }
        Ok(())
    }
}

impl UpdateAccountRequest {
    /// A code, where given, of 1 to 20 characters and a name of 1 to 255.
    pub open spec fn valid_spec(&self) -> bool {
        &&& self.code matches Some(c) ==> 1 <= c@.len() <= 20
        &&& self.name matches Some(n) ==> 1 <= n@.len() <= 255
    }

    pub fn validate(&self) -> (r: Result<(), AppError>)
        ensures
            r is Ok <==> self.valid_spec(),
            r matches Err(e) ==> e.kind_spec() == crate::errors::ErrorKind::Validation,
    {
        if let Some(c) = &self.code {
            if !length_within(c, 1, 20) {
                return Err(
                    validation_error("Validation failed: code must have 1 to 20 characters"),
                );
            }
        }
        if let Some(n) = &self.name {
            if !length_within(n, 1, 255) {
                return Err(
                    validation_error("Validation failed: name must have 1 to 255 characters"),
                );
            }
        }
        Ok(())
    }
}

impl CreateEntryRequest {
    /// A non-empty account id and a description, where given, of at most 255
    /// characters.
    pub open spec fn valid_spec(&self) -> bool {
        &&& self.account_id@.len() >= 1
        &&& self.description matches Some(d) ==> d@.len() <= 255
    }

    pub fn validate(&self) -> (r: Result<(), AppError>)
        ensures
            r is Ok <==> self.valid_spec(),
            r matches Err(e) ==> e.kind_spec() == crate::errors::ErrorKind::Validation,
    {
        if self.account_id.as_str().unicode_len() == 0 {
            return Err(validation_error("Validation failed: an entry needs an account id"));
        }
        if let Some(d) = &self.description {
            if !length_within(d, 0, 255) {
                return Err(
                    validation_error(
                        "Validation failed: an entry description has at most 255 characters",
                    ),
                );
            }
        }
        Ok(())
    }
}

impl CreateTransactionRequest {
    /// The shape of the request: a reference of 1 to 50 characters, a
    /// description of 1 to 500, and entries that are each well formed.
    pub open spec fn valid_spec(&self) -> bool {
        &&& 1 <= self.reference@.len() <= 50
        &&& 1 <= self.description@.len() <= 500
        &&& forall|i: int| 0 <= i < self.entries@.len()
            ==> (#[trigger] self.entries@[i]).valid_spec()
    }

    /// Checks the shape of the request (not its balance: see `Ledger::submit_transaction`).
    pub fn validate(&self) -> (r: Result<(), AppError>)
        ensures
            r is Ok <==> self.valid_spec(),
            r matches Err(e) ==> e.kind_spec() == crate::errors::ErrorKind::Validation,
    {
        if !length_within(&self.reference, 1, 50) {
            return Err(
                validation_error("Validation failed: reference must have 1 to 50 characters"),
            );
        }
        if !length_within(&self.description, 1, 500) {
            return Err(
                validation_error("Validation failed: description must have 1 to 500 characters"),
            );
        }
        let mut i: usize = 0;
        while i < self.entries.len()
            invariant
                i <= self.entries@.len(),
                forall|j: int| 0 <= j < i ==> (#[trigger] self.entries@[j]).valid_spec(),
            decreases self.entries@.len() - i,
        {
            let checked = self.entries[i].validate();
            if checked.is_err() {
                return checked;
            }
            i = i + 1;
        }
        Ok(())
    }
}

} // verus!

use double_rust_ledger::amount::{Amount, MAX_MANTISSA};
use double_rust_ledger::config::AppConfig;
use double_rust_ledger::errors::{AppError, DatabaseError, ErrorKind};
use double_rust_ledger::balance::signed_balance;
use double_rust_ledger::ledger::Ledger;
use double_rust_ledger::middleware::RequestTimeout;
use double_rust_ledger::models::{
    AccountType, CreateAccountRequest, CreateEntryRequest, CreateTransactionRequest, NewAccount,
    UpdateAccountRequest,
};

fn dollars(cents: i64) -> Amount {
    Amount::new(cents, 2)
}

fn open(ledger: &mut Ledger, code: &str, name: &str, t: AccountType) -> String {
    let req = CreateAccountRequest {
        code: code.to_string(),
        name: name.to_string(),
        account_type: t,
        parent_id: None,
    };
    ledger.create_account(&req).unwrap().id
}

fn debit(account_id: &str, amount: Amount) -> CreateEntryRequest {
    CreateEntryRequest {
        account_id: account_id.to_string(),
        debit_amount: Some(amount),
        credit_amount: None,
        description: None,
    }
}

fn credit(account_id: &str, amount: Amount) -> CreateEntryRequest {
    CreateEntryRequest {
        account_id: account_id.to_string(),
        debit_amount: None,
        credit_amount: Some(amount),
        description: None,
    }
}

fn transaction(reference: &str, entries: Vec<CreateEntryRequest>) -> CreateTransactionRequest {
    CreateTransactionRequest {
        reference: reference.to_string(),
        description: "Sale".to_string(),
        transaction_date: None,
        entries,
    }
}

fn cash_and_sales() -> (Ledger, String, String) {
    let mut ledger = Ledger::new();
    let a1 = open(&mut ledger, "A001", "Cash", AccountType::Asset);
    let a2 = open(&mut ledger, "A002", "Sales", AccountType::Revenue);
    (ledger, a1, a2)
}

#[test]
fn asset_and_revenue_signs() {
    let asset = signed_balance("asset", &dollars(150000), &dollars(50000)).unwrap();
    assert_eq!(asset, dollars(100000));
    let revenue = signed_balance("revenue", &dollars(150000), &dollars(50000)).unwrap();
    assert_eq!(revenue, dollars(-100000));
    assert_eq!(signed_balance("expense", &dollars(300), &dollars(100)).unwrap(), dollars(200));
    assert_eq!(signed_balance("liability", &dollars(300), &dollars(100)).unwrap(), dollars(-200));
    assert_eq!(signed_balance("equity", &dollars(100), &dollars(300)).unwrap(), dollars(200));
}

#[test]
fn unknown_account_type_falls_back_to_debit_minus_credit() {
    let b = signed_balance("mystery", &dollars(100), &dollars(300)).unwrap();
    assert_eq!(b, dollars(-200));
}

#[test]
fn end_to_end_cash_and_sales() {
    let (mut ledger, a1, a2) = cash_and_sales();
    let req = transaction("TXN-1", vec![debit(&a1, dollars(10000)), credit(&a2, dollars(10000))]);
    let created = ledger.submit_transaction(&req).unwrap();
    assert_eq!(created.reference, "TXN-1");
    assert_eq!(created.entries.len(), 2);

    let cash = ledger.account_balance(&a1).unwrap();
    assert_eq!(cash.debit_total, dollars(10000));
    assert_eq!(cash.credit_total, Amount::zero());
    assert_eq!(cash.balance, dollars(10000));
    let sales = ledger.account_balance(&a2).unwrap();
    assert_eq!(sales.balance, dollars(10000));
    assert_eq!(sales.account_code, "A002");
    assert_eq!(sales.account_type, "revenue");
}

#[test]
fn unbalanced_submission_is_rejected_and_writes_nothing() {
    let (mut ledger, a1, a2) = cash_and_sales();
    let req = transaction("TXN-1", vec![debit(&a1, dollars(10000)), credit(&a2, dollars(5000))]);
    let err = ledger.submit_transaction(&req).unwrap_err();
    assert_eq!(err.kind(), ErrorKind::Validation);
    assert!(ledger.all_transactions().is_empty());
    let missing = ledger.get_transaction_by_reference("TXN-1").unwrap_err();
    assert_eq!(missing.kind(), ErrorKind::NotFound);
    assert_eq!(ledger.account_balance(&a1).unwrap().balance, Amount::zero());
}

#[test]
fn unbalanced_message_carries_both_totals() {
    let (mut ledger, a1, a2) = cash_and_sales();
    let req = transaction("TXN-1", vec![debit(&a1, dollars(10000)), credit(&a2, dollars(5000))]);
    let err = ledger.submit_transaction(&req).unwrap_err();
    let text = err.detail().clone();
    assert!(text.contains("100.00"), "{}", text);
    assert!(text.contains("50.00"), "{}", text);
}

#[test]
fn empty_transaction_is_rejected() {
    let (mut ledger, _, _) = cash_and_sales();
    let err = ledger.submit_transaction(&transaction("TXN-0", vec![])).unwrap_err();
    assert_eq!(err.kind(), ErrorKind::Validation);
    assert!(ledger.all_transactions().is_empty());
}

#[test]
fn balance_compares_values_not_digits() {
    let (mut ledger, a1, a2) = cash_and_sales();
    let req = transaction(
        "TXN-3",
        vec![debit(&a1, Amount::new(15, 1)), credit(&a2, Amount::new(150, 2))],
    );
    assert!(ledger.submit_transaction(&req).is_ok());
}

#[test]
fn read_back_shows_account_code_and_name() {
    let (mut ledger, a1, a2) = cash_and_sales();
    let mut req =
        transaction("TXN-1", vec![debit(&a1, dollars(2500)), credit(&a2, dollars(2500))]);
    req.entries[0].description = Some("till".to_string());
    let created = ledger.submit_transaction(&req).unwrap();
    let again = ledger.get_transaction(&created.id).unwrap();
    assert_eq!(again.entries.len(), 2);
    assert_eq!(again.entries[0].account_id, a1);
    assert_eq!(again.entries[0].account_code, "A001");
    assert_eq!(again.entries[0].account_name, "Cash");
    assert_eq!(again.entries[0].debit_amount, dollars(2500));
    assert_eq!(again.entries[0].credit_amount, Amount::zero());
    assert_eq!(again.entries[0].description, Some("till".to_string()));
    assert_eq!(again.entries[1].account_code, "A002");
    assert_eq!(again.entries[1].account_name, "Sales");
    assert_eq!(again.entries[1].credit_amount, dollars(2500));
    assert_eq!(again.reference, "TXN-1");
    assert_eq!(again.transaction_date, again.created_at);
}

#[test]
fn given_date_is_kept() {
    let (mut ledger, a1, a2) = cash_and_sales();
    let mut req = transaction("TXN-1", vec![debit(&a1, dollars(1)), credit(&a2, dollars(1))]);
    req.transaction_date = Some("2024-01-31".to_string());
    let created = ledger.submit_transaction(&req).unwrap();
    assert_eq!(created.transaction_date, "2024-01-31");
}

#[test]
fn unknown_account_is_not_found() {
    let (mut ledger, a1, _) = cash_and_sales();
    let req = transaction("TXN-1", vec![debit(&a1, dollars(10)), credit("nope", dollars(10))]);
    let err = ledger.submit_transaction(&req).unwrap_err();
    assert_eq!(err.kind(), ErrorKind::NotFound);
    assert!(ledger.all_transactions().is_empty());
}

#[test]
fn reference_is_unique() {
    let (mut ledger, a1, a2) = cash_and_sales();
    let req = transaction("TXN-1", vec![debit(&a1, dollars(10)), credit(&a2, dollars(10))]);
    ledger.submit_transaction(&req).unwrap();
    let err = ledger.submit_transaction(&req).unwrap_err();
    assert_eq!(err.kind(), ErrorKind::Database);
    assert_eq!(ledger.all_transactions().len(), 1);
    assert_eq!(ledger.account_balance(&a1).unwrap().balance, dollars(10));
}

#[test]
fn malformed_request_is_a_validation_error() {
    let (mut ledger, a1, a2) = cash_and_sales();
    let mut req = transaction("", vec![debit(&a1, dollars(10)), credit(&a2, dollars(10))]);
    assert_eq!(ledger.submit_transaction(&req).unwrap_err().kind(), ErrorKind::Validation);
    req.reference = "TXN-1".to_string();
    req.description = String::new();
    assert_eq!(ledger.submit_transaction(&req).unwrap_err().kind(), ErrorKind::Validation);
}

#[test]
fn totals_out_of_range_are_rejected() {
    let (mut ledger, a1, a2) = cash_and_sales();
    let big = Amount::from_parts(MAX_MANTISSA, 0).unwrap();
    let req = transaction(
        "TXN-1",
        vec![debit(&a1, big), debit(&a1, big), credit(&a2, big), credit(&a2, big)],
    );
    assert_eq!(ledger.submit_transaction(&req).unwrap_err().kind(), ErrorKind::Validation);
}

#[test]
fn balance_out_of_range_is_an_internal_error() {
    let (mut ledger, a1, a2) = cash_and_sales();
    let big = Amount::from_parts(60_000_000_000_000_000_000_000_000_000, 0).unwrap();
    let first = transaction("TXN-1", vec![debit(&a1, big), credit(&a2, big)]);
    let second = transaction("TXN-2", vec![debit(&a1, big), credit(&a2, big)]);
    ledger.submit_transaction(&first).unwrap();
    ledger.submit_transaction(&second).unwrap();
    let err = ledger.account_balance(&a1).unwrap_err();
    assert_eq!(err.kind(), ErrorKind::Internal);
    assert_eq!(err.status_code(), 500);
    assert_eq!(ledger.balances(&None).unwrap_err().kind(), ErrorKind::Internal);
}

#[test]
fn delete_missing_transaction_is_not_found() {
    let (mut ledger, a1, a2) = cash_and_sales();
    let req = transaction("TXN-1", vec![debit(&a1, dollars(10)), credit(&a2, dollars(10))]);
    ledger.submit_transaction(&req).unwrap();
    let err = ledger.delete_transaction("no-such-id").unwrap_err();
    assert_eq!(err.kind(), ErrorKind::NotFound);
    assert_eq!(ledger.all_transactions().len(), 1);
    assert_eq!(ledger.account_balance(&a1).unwrap().balance, dollars(10));
}

#[test]
fn delete_removes_transaction_and_entries() {
    let (mut ledger, a1, a2) = cash_and_sales();
    let keep = transaction("TXN-1", vec![debit(&a1, dollars(10)), credit(&a2, dollars(10))]);
    let gone = transaction("TXN-2", vec![debit(&a1, dollars(7)), credit(&a2, dollars(7))]);
    ledger.submit_transaction(&keep).unwrap();
    let id = ledger.submit_transaction(&gone).unwrap().id;
    assert_eq!(ledger.account_balance(&a1).unwrap().balance, dollars(17));
    ledger.delete_transaction(&id).unwrap();
    assert_eq!(ledger.get_transaction(&id).unwrap_err().kind(), ErrorKind::NotFound);
    assert_eq!(ledger.all_transactions().len(), 1);
    assert_eq!(ledger.account_balance(&a1).unwrap().balance, dollars(10));
    assert_eq!(ledger.account_balance(&a2).unwrap().balance, dollars(10));
}

#[test]
fn repeated_balance_queries_agree() {
    let (mut ledger, a1, a2) = cash_and_sales();
    let req = transaction("TXN-1", vec![debit(&a1, dollars(333)), credit(&a2, dollars(333))]);
    ledger.submit_transaction(&req).unwrap();
    let first = ledger.account_balance(&a2).unwrap();
    let second = ledger.account_balance(&a2).unwrap();
    assert_eq!(first.balance, second.balance);
    assert_eq!(first.debit_total, second.debit_total);
    assert_eq!(first.credit_total, second.credit_total);
    assert_eq!(first.account_id, second.account_id);
}

#[test]
fn balances_list_and_filter() {
    let (mut ledger, a1, a2) = cash_and_sales();
    open(&mut ledger, "E001", "Rent", AccountType::Expense);
    let req = transaction("TXN-1", vec![debit(&a1, dollars(500)), credit(&a2, dollars(500))]);
    ledger.submit_transaction(&req).unwrap();
    let all = ledger.balances(&None).unwrap();
    assert_eq!(all.len(), 3);
    assert_eq!(all[0].account_code, "A001");
    assert_eq!(all[2].balance, Amount::zero());
    let revenue = ledger.balances(&Some("revenue".to_string())).unwrap();
    assert_eq!(revenue.len(), 1);
    assert_eq!(revenue[0].account_id, a2);
    assert_eq!(revenue[0].balance, dollars(500));
    assert!(Ledger::new().balances(&None).unwrap().is_empty());
}

#[test]
fn balance_of_unknown_account_is_not_found() {
    let ledger = Ledger::new();
    let err = ledger.account_balance("nope").unwrap_err();
    assert_eq!(err.kind(), ErrorKind::NotFound);
    assert_eq!(err.status_code(), 404);
}

#[test]
fn unreadable_stored_amount_counts_as_zero() {
    assert_eq!(Amount::from_stored_text("not a number"), Amount::zero());
    assert_eq!(Amount::parse("not a number"), None);
    let stored_kind = NewAccount {
        id: "acc-x".to_string(),
        code: "X1".to_string(),
        name: "Odd".to_string(),
        account_type: "mystery".to_string(),
        parent_id: None,
        is_active: true,
        created_at: "t".to_string(),
        updated_at: "t".to_string(),
    };
    let mut ledger = Ledger::new();
    ledger.insert_account(stored_kind).unwrap();
    let b = ledger.account_balance("acc-x").unwrap();
    assert_eq!(b.balance, Amount::zero());
}

#[test]
fn amounts_are_written_and_read_as_decimal_text() {
    assert_eq!(dollars(10000).to_text(), "100.00");
    assert_eq!(Amount::new(-5, 1).to_text(), "-0.5");
    let parsed = Amount::parse("1234.500").unwrap();
    assert_eq!(parsed.mantissa(), 1234500);
    assert_eq!(parsed.scale(), 3);
    assert_eq!(Amount::from_stored_text("12.5"), Amount::new(125, 1));
}

#[test]
fn amount_arithmetic_is_exact() {
    let a = Amount::new(1, 1);
    let b = Amount::new(2, 2);
    let s = a.checked_add(&b).unwrap();
    assert_eq!(s.mantissa(), 12);
    assert_eq!(s.scale(), 2);
    assert_eq!(Amount::new(15, 1), Amount::new(150, 2));
    assert_ne!(Amount::new(15, 1), Amount::new(151, 2));
    let d = a.checked_sub(&b).unwrap();
    assert_eq!(d, Amount::new(8, 2));
    let big = Amount::from_parts(MAX_MANTISSA, 0).unwrap();
    assert!(big.checked_add(&Amount::new(1, 0)).is_none());
    assert!(Amount::from_parts(MAX_MANTISSA + 1, 0).is_none());
    assert!(Amount::from_parts(1, 29).is_none());
    assert!(Amount::new(0, 5).is_zero());
    assert_eq!(Amount::new(3, 0).negated(), Amount::new(-3, 0));
}

#[test]
fn accounts_get_fresh_ids_and_unique_codes() {
    let mut ledger = Ledger::new();
    let a = open(&mut ledger, "A001", "Cash", AccountType::Asset);
    let b = open(&mut ledger, "A002", "Bank", AccountType::Asset);
    assert_ne!(a, b);
    assert_eq!(a.len(), 36);
    let created = ledger.get_account(&a).unwrap();
    assert!(created.is_active);
    assert_eq!(created.account_type, "asset");
    assert!(!created.created_at.is_empty());
    let dup = CreateAccountRequest {
        code: "A001".to_string(),
        name: "Other".to_string(),
        account_type: AccountType::Equity,
        parent_id: None,
    };
    assert_eq!(ledger.create_account(&dup).unwrap_err().kind(), ErrorKind::Database);
    let bad = CreateAccountRequest {
        code: "".to_string(),
        name: "Other".to_string(),
        account_type: AccountType::Equity,
        parent_id: None,
    };
    assert_eq!(ledger.create_account(&bad).unwrap_err().kind(), ErrorKind::Validation);
    let listed = ledger.all_accounts();
    assert_eq!(listed.len(), 2);
    assert_eq!(listed[0].id, b);
}

#[test]
fn update_changes_only_given_fields() {
    let mut ledger = Ledger::new();
    let a = open(&mut ledger, "A001", "Cash", AccountType::Asset);
    open(&mut ledger, "A002", "Bank", AccountType::Asset);
    let patch = UpdateAccountRequest {
        code: None,
        name: Some("Petty cash".to_string()),
        account_type: Some(AccountType::Expense),
        parent_id: None,
        is_active: Some(false),
    };
    let updated = ledger.update_account(&a, &patch).unwrap();
    assert_eq!(updated.code, "A001");
    assert_eq!(updated.name, "Petty cash");
    assert_eq!(updated.account_type, "expense");
    assert!(!updated.is_active);
    assert_eq!(ledger.get_account(&a).unwrap().name, "Petty cash");

    let clash = UpdateAccountRequest {
        code: Some("A002".to_string()),
        name: None,
        account_type: None,
        parent_id: None,
        is_active: None,
    };
    assert_eq!(ledger.update_account(&a, &clash).unwrap_err().kind(), ErrorKind::Database);
    let same = UpdateAccountRequest {
        code: Some("A001".to_string()),
        name: None,
        account_type: None,
        parent_id: None,
        is_active: None,
    };
    assert!(ledger.update_account(&a, &same).is_ok());
    assert_eq!(ledger.update_account("nope", &same).unwrap_err().kind(), ErrorKind::NotFound);
    let bad = UpdateAccountRequest {
        code: Some(String::new()),
        name: None,
        account_type: None,
        parent_id: None,
        is_active: None,
    };
    assert_eq!(ledger.update_account(&a, &bad).unwrap_err().kind(), ErrorKind::Validation);
}

#[test]
fn delete_account_and_missing_account() {
    let mut ledger = Ledger::new();
    let a = open(&mut ledger, "A001", "Cash", AccountType::Asset);
    assert!(ledger.delete_account(&a).is_ok());
    assert_eq!(ledger.get_account(&a).unwrap_err().kind(), ErrorKind::NotFound);
    assert_eq!(ledger.delete_account(&a).unwrap_err().kind(), ErrorKind::NotFound);
    assert!(ledger.all_accounts().is_empty());
}

#[test]
fn errors_classify_and_describe() {
    let cases = vec![
        (AppError::DatabaseError("x".to_string()), 500, "Database error: x"),
        (AppError::ValidationError("x".to_string()), 400, "Validation error: x"),
        (AppError::NotFound("x".to_string()), 404, "Not found: x"),
        (AppError::BadRequest("x".to_string()), 400, "Bad request: x"),
        (AppError::InternalServerError("x".to_string()), 500, "Internal server error: x"),
    ];
    for (e, status, text) in cases {
        assert_eq!(e.status_code(), status);
        assert_eq!(e.message(), text);
        assert_eq!(e.detail(), "x");
    }
    assert_eq!(DatabaseError("down".to_string()).message(), "Database error: down");
}

#[test]
fn config_defaults_and_timeout() {
    let c = AppConfig::from_values(None, Some("0.0.0.0:9000".to_string()), None);
    assert_eq!(c.database_url, "sqlite:ledger.db");
    assert_eq!(c.bind_address, "0.0.0.0:9000");
    assert_eq!(c.log_level, "info");
    assert_eq!(RequestTimeout::new(30).timeout_secs, 30);
}

#[test]
fn rows_restore_to_the_same_ledger() {
    let (mut ledger, a1, a2) = cash_and_sales();
    let req = transaction("TXN-1", vec![debit(&a1, dollars(42)), credit(&a2, dollars(42))]);
    ledger.submit_transaction(&req).unwrap();
    let (accounts, transactions, entries) = ledger.rows();
    assert_eq!(accounts.len(), 2);
    assert_eq!(transactions.len(), 1);
    assert_eq!(entries.len(), 2);
    assert_eq!(entries[0].debit_amount, "0.42");
    assert_eq!(entries[0].credit_amount, "0");
    let copy = Ledger::restore(accounts, transactions, entries).unwrap();
    assert_eq!(copy.account_balance(&a1).unwrap().balance, dollars(42));
    assert_eq!(copy.get_transaction_by_reference("TXN-1").unwrap().entries.len(), 2);
}

#[test]
fn restore_refuses_repeated_keys() {
    let (ledger, _, _) = cash_and_sales();
    let (mut accounts, transactions, entries) = ledger.rows();
    let again = accounts[0].clone();
    accounts.push(again);
    let err = Ledger::restore(accounts, transactions, entries).err().unwrap();
    assert_eq!(err.kind(), ErrorKind::Database);
}

#[test]
fn new_account_is_stamped_once() {
    let mut ledger = Ledger::new();
    let a = open(&mut ledger, "A001", "Cash", AccountType::Asset);
    let created = ledger.get_account(&a).unwrap();
    assert_eq!(created.created_at, created.updated_at);
}

#[test]
fn unknown_kind_names_are_rejected() {
    assert_eq!(AccountType::from_name("invalid"), None);
    assert_eq!(AccountType::from_name(""), None);
    assert_eq!(AccountType::from_name("assets"), None);
}

#[test]
fn storage_messages_hide_store_internals() {
    let (mut ledger, a1, a2) = cash_and_sales();
    let req = transaction("TXN-1", vec![debit(&a1, dollars(10)), credit(&a2, dollars(10))]);
    ledger.submit_transaction(&req).unwrap();
    let err = ledger.submit_transaction(&req).unwrap_err();
    assert!(!err.detail().contains("UNIQUE"));
    assert_eq!(err.detail(), "A transaction with this reference already exists");
}

#[test]
fn stored_amounts_read_back_as_requested() {
    let (mut ledger, a1, a2) = cash_and_sales();
    let precise = Amount::from_parts(123456789012345678901234567, 20).unwrap();
    let req = transaction("TXN-9", vec![debit(&a1, precise), credit(&a2, precise)]);
    let created = ledger.submit_transaction(&req).unwrap();
    let again = ledger.get_transaction(&created.id).unwrap();
    assert_eq!(again.entries[0].debit_amount.mantissa(), 123456789012345678901234567);
    assert_eq!(again.entries[0].debit_amount.scale(), 20);
    assert_eq!(again.entries[1].credit_amount, precise);
}

#[test]
fn decimal_text_shapes() {
    assert_eq!(Amount::new(0, 0).to_text(), "0");
    assert_eq!(Amount::new(0, 2).to_text(), "0.00");
    assert_eq!(Amount::new(-123, 0).to_text(), "-123");
    assert_eq!(Amount::new(5, 3).to_text(), "0.005");
    assert_eq!(Amount::from_parts(7, 28).unwrap().to_text(), "0.0000000000000000000000000007");
    assert_eq!(
        Amount::from_parts(-MAX_MANTISSA, 28).unwrap().to_text(),
        "-7.9228162514264337593543950335"
    );
    let back = Amount::parse("-7.9228162514264337593543950335").unwrap();
    assert_eq!(back.mantissa(), -MAX_MANTISSA);
    assert_eq!(back.scale(), 28);
}

#[test]
fn listings_are_ordered_by_creation_time() {
    let account = |id: &str, code: &str, at: &str| double_rust_ledger::models::Account {
        id: id.to_string(),
        code: code.to_string(),
        name: "n".to_string(),
        account_type: "asset".to_string(),
        parent_id: None,
        is_active: true,
        created_at: at.to_string(),
        updated_at: at.to_string(),
    };
    let tx = |id: &str, at: &str| double_rust_ledger::models::Transaction {
        id: id.to_string(),
        reference: id.to_string(),
        description: "d".to_string(),
        transaction_date: at.to_string(),
        created_at: at.to_string(),
        updated_at: at.to_string(),
    };
    let ledger = Ledger::restore(
        vec![
            account("a", "1", "2024-01-02T00:00:00+00:00"),
            account("b", "2", "2024-03-01T00:00:00+00:00"),
            account("c", "3", "2023-12-31T00:00:00+00:00"),
        ],
        vec![
            tx("t1", "2024-01-01T10:00:00.500+00:00"),
            tx("t2", "2024-01-01T10:00:00+00:00"),
            tx("t3", "2024-01-01T10:00:01+00:00"),
        ],
        vec![],
    )
    .unwrap();
    let ids: Vec<String> = ledger.all_accounts().into_iter().map(|a| a.id).collect();
    assert_eq!(ids, vec!["b", "a", "c"]);
    let ids: Vec<String> = ledger.all_transactions().into_iter().map(|t| t.id).collect();
    assert_eq!(ids, vec!["t3", "t1", "t2"]);
}

#[test]
fn account_kind_converts_to_its_name() {
    assert_eq!(String::from(AccountType::Liability), "liability");
}

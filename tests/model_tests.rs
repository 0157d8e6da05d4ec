use double_rust_ledger::amount::Amount;
use double_rust_ledger::models::{
    AccountBalance, AccountType, ApiResponse, CreateAccountRequest, CreateEntryRequest,
    CreateTransactionRequest,
};

#[test]
fn test_account_type_conversion() {
    assert_eq!(AccountType::from_name("asset"), Some(AccountType::Asset));
    assert_eq!(AccountType::from_name("liability"), Some(AccountType::Liability));
    assert_eq!(AccountType::from_name("equity"), Some(AccountType::Equity));
    assert_eq!(AccountType::from_name("revenue"), Some(AccountType::Revenue));
    assert_eq!(AccountType::from_name("expense"), Some(AccountType::Expense));

    assert_eq!(AccountType::from_name("invalid"), None);

    assert_eq!(String::from(AccountType::Asset), "asset");
    assert_eq!(String::from(AccountType::Liability), "liability");
    assert_eq!(String::from(AccountType::Equity), "equity");
    assert_eq!(String::from(AccountType::Revenue), "revenue");
    assert_eq!(String::from(AccountType::Expense), "expense");
}

#[test]
fn test_create_account_request_validation() {
    let valid_request = CreateAccountRequest {
        code: "1000".to_string(),
        name: "Cash Account".to_string(),
        account_type: AccountType::Asset,
        parent_id: None,
    };
    assert!(valid_request.validate().is_ok());

    let invalid_request = CreateAccountRequest {
        code: "".to_string(),
        name: "Cash Account".to_string(),
        account_type: AccountType::Asset,
        parent_id: None,
    };
    assert!(invalid_request.validate().is_err());
}

#[test]
fn test_create_transaction_request_validation() {
    let valid_entries = vec![
        CreateEntryRequest {
            account_id: "acc1".to_string(),
            debit_amount: Some(Amount::new(10000, 2)),
            credit_amount: None,
            description: Some("Test debit".to_string()),
        },
        CreateEntryRequest {
            account_id: "acc2".to_string(),
            debit_amount: None,
            credit_amount: Some(Amount::new(10000, 2)),
            description: Some("Test credit".to_string()),
        },
    ];

    let valid_request = CreateTransactionRequest {
        reference: "TXN-001".to_string(),
        description: "Test transaction".to_string(),
        transaction_date: None,
        entries: valid_entries,
    };
    assert!(valid_request.validate().is_ok());

    let invalid_request = CreateTransactionRequest {
        reference: "".to_string(),
        description: "Test transaction".to_string(),
        transaction_date: None,
        entries: vec![],
    };
    assert!(invalid_request.validate().is_err());
}

#[test]
fn test_api_response_builders() {
    let success_response = ApiResponse::success("test data");
    assert!(success_response.success);
    assert_eq!(success_response.data, Some("test data"));
    assert!(success_response.message.is_none());
    assert!(success_response.errors.is_none());

    let error_response: ApiResponse<()> = ApiResponse::error("error message".to_string());
    assert!(!error_response.success);
    assert!(error_response.data.is_none());
    assert_eq!(error_response.message, Some("error message".to_string()));
    assert!(error_response.errors.is_none());

    let validation_response: ApiResponse<()> = ApiResponse::validation_errors(vec![
        "field1 is required".to_string(),
        "field2 is invalid".to_string(),
    ]);
    assert!(!validation_response.success);
    assert!(validation_response.data.is_none());
    assert_eq!(validation_response.message, Some("Validation failed".to_string()));
    assert_eq!(
        validation_response.errors,
        Some(vec!["field1 is required".to_string(), "field2 is invalid".to_string()])
    );
}

#[test]
fn test_account_balance_calculation() {
    let balance = AccountBalance {
        account_id: "test-id".to_string(),
        account_code: "1000".to_string(),
        account_name: "Test Account".to_string(),
        account_type: "asset".to_string(),
        debit_total: Amount::new(15000, 2),
        credit_total: Amount::new(5000, 2),
        balance: Amount::new(10000, 2),
    };

    let expected_balance = balance.debit_total.checked_sub(&balance.credit_total).unwrap();
    assert_eq!(balance.balance, expected_balance);
}

#[test]
fn account_type_names_are_read_strictly() {
    assert_eq!(AccountType::from_name("revenue"), Some(AccountType::Revenue));
    assert_eq!(AccountType::from_name("Revenue"), None);
    assert_eq!(AccountType::from_name("invalid"), None);
    for t in [
        AccountType::Asset,
        AccountType::Liability,
        AccountType::Equity,
        AccountType::Revenue,
        AccountType::Expense,
    ] {
        assert_eq!(AccountType::from_name(t.name().as_str()), Some(t));
    }
    assert!(AccountType::Revenue.is_credit_normal());
    assert!(!AccountType::Expense.is_credit_normal());
}

#[test]
fn lengths_are_counted_in_characters() {
    let code_of_twenty = "é".repeat(20);
    let ok = CreateAccountRequest {
        code: code_of_twenty,
        name: "Caisse".to_string(),
        account_type: AccountType::Asset,
        parent_id: None,
    };
    assert!(ok.validate().is_ok());
    let too_long = CreateAccountRequest {
        code: "x".repeat(21),
        name: "Caisse".to_string(),
        account_type: AccountType::Asset,
        parent_id: None,
    };
    assert!(too_long.validate().is_err());
    let long_name = CreateAccountRequest {
        code: "1".to_string(),
        name: "n".repeat(256),
        account_type: AccountType::Asset,
        parent_id: None,
    };
    assert!(long_name.validate().is_err());
}

#[test]
fn entries_are_checked_with_the_transaction() {
    let req = CreateTransactionRequest {
        reference: "TXN-2".to_string(),
        description: "Rent".to_string(),
        transaction_date: None,
        entries: vec![CreateEntryRequest {
            account_id: "".to_string(),
            debit_amount: Some(Amount::new(1, 0)),
            credit_amount: None,
            description: None,
        }],
    };
    assert!(req.validate().is_err());
    let long_reference = CreateTransactionRequest {
        reference: "r".repeat(51),
        description: "Rent".to_string(),
        transaction_date: None,
        entries: vec![],
    };
    assert!(long_reference.validate().is_err());
}

use homebase::accounts::{
    account_insert_reply, check_account_form, AccountCreationForm, AccountFormError, Bank, ImportStrategy,
};

fn form(name: &str, balance: &str) -> AccountCreationForm {
    AccountCreationForm {
        account_name: name.to_string(),
        bank: Bank::Ally,
        opening_balance_string: balance.to_string(),
    }
}

#[test]
fn bank_names() {
    let names: Vec<(&str, &str)> = Bank::all().iter().map(|b| (b.as_str(), b.display_name())).collect();
    assert_eq!(
        names,
        vec![
            ("usaa", "USAA"),
            ("ally", "Ally"),
            ("fidelity", "Fidelity"),
            ("healthequity", "Health Equity"),
            ("inspira", "Inspira"),
            ("charlesschwab", "Charles Schwab"),
        ]
    );
}

#[test]
fn bank_import_strategies() {
    assert_eq!(Bank::Usaa.import_strategy(), ImportStrategy::Csv);
    assert_eq!(Bank::Ally.import_strategy(), ImportStrategy::Csv);
    assert_eq!(Bank::Fidelity.import_strategy(), ImportStrategy::ManualValuation);
    assert_eq!(Bank::CharlesSchwab.import_strategy(), ImportStrategy::ManualValuation);
}

#[test]
fn account_form_trims_and_converts() {
    let a = check_account_form(&form("  Checking  ", "1,000")).unwrap_err();
    assert_eq!(a, AccountFormError::BalanceInvalid);
    let a = check_account_form(&form("  Checking  ", "1000.25")).unwrap();
    assert_eq!(a.name, "Checking");
    assert_eq!(a.bank, Bank::Ally);
    assert_eq!(a.opening_balance_pennies, 100025);
}

#[test]
fn account_form_name_limits() {
    assert_eq!(check_account_form(&form("   ", "1")).unwrap_err(), AccountFormError::NameInvalid);
    let hundred = "a".repeat(100);
    assert!(check_account_form(&form(&hundred, "1")).is_ok());
    let long = "a".repeat(101);
    assert_eq!(check_account_form(&form(&long, "1")).unwrap_err(), AccountFormError::NameInvalid);
    let wide = "é".repeat(51);
    assert_eq!(check_account_form(&form(&wide, "1")).unwrap_err(), AccountFormError::NameInvalid);
    let fits = "é".repeat(50);
    assert!(check_account_form(&form(&fits, "1")).is_ok());
}

#[test]
fn account_form_messages() {
    assert_eq!(AccountFormError::NameInvalid.message(), "Account name is required (max 100 chars)");
    assert_eq!(AccountFormError::BalanceInvalid.message(), "Invalid balance amount");
    assert_eq!(account_insert_reply(false), Err(AccountFormError::NameTaken));
    assert_eq!(account_insert_reply(true), Ok(()));
    assert_eq!(AccountFormError::NameTaken.message(), "An account with that name already exists");
}

//! Financial accounts: the banks they are held at and the form that opens one.

use vstd::prelude::*;
use crate::currency::{spec_dollars_to_pennies, dollars_to_pennies, CurrencyError};
use crate::text::{spec_trim, trim_bounds, chars_of, string_from, utf8_len, utf8_len_exceeds};

verus! {

/// The institutions an account can be held at.
#[derive(Debug, Clone, Copy, PartialEq, Eq)]
pub enum Bank {
    Usaa,
    Ally,
    Fidelity,
    HealthEquity,
    Inspira,
    CharlesSchwab,
}

/// How the balance of an account is kept up to date.
#[derive(Debug, Clone, Copy, PartialEq, Eq)]
pub enum ImportStrategy {
    /// Transactions are imported from the bank's CSV export.
    Csv,
    /// The balance is entered by hand.
    ManualValuation,
}

impl Bank {
    /// The stored name of the bank (lower case, no spaces).
    pub open spec fn spec_as_str(self) -> Seq<char> {
        match self {
            Bank::Usaa => "usaa"@,
            Bank::Ally => "ally"@,
            Bank::Fidelity => "fidelity"@,
            Bank::HealthEquity => "healthequity"@,
            Bank::Inspira => "inspira"@,
            Bank::CharlesSchwab => "charlesschwab"@,
        }
    }

    /// The name shown to the user.
    pub open spec fn spec_display_name(self) -> Seq<char> {
        match self {
            Bank::Usaa => "USAA"@,
            Bank::Ally => "Ally"@,
            Bank::Fidelity => "Fidelity"@,
            Bank::HealthEquity => "Health Equity"@,
            Bank::Inspira => "Inspira"@,
            Bank::CharlesSchwab => "Charles Schwab"@,
        }
    }

    /// USAA and Ally export CSV files; the others are valued by hand.
    pub open spec fn spec_import_strategy(self) -> ImportStrategy {
        match self {
            Bank::Usaa | Bank::Ally => ImportStrategy::Csv,
            _ => ImportStrategy::ManualValuation,
        }
    }

    /// The stored name of the bank, such as `"healthequity"`.
    pub fn as_str(&self) -> (r: &'static str)
        ensures
            r@ == self.spec_as_str(),
    {
        match self {
            Bank::Usaa => "usaa",
            Bank::Ally => "ally",
            Bank::Fidelity => "fidelity",
            Bank::HealthEquity => "healthequity",
            Bank::Inspira => "inspira",
            Bank::CharlesSchwab => "charlesschwab",
        }
    }

    /// The name shown to the user, such as `"Health Equity"`.
    pub fn display_name(&self) -> (r: &'static str)
        ensures
            r@ == self.spec_display_name(),
    {
        match self {
            Bank::Usaa => "USAA",
            Bank::Ally => "Ally",
            Bank::Fidelity => "Fidelity",
            Bank::HealthEquity => "Health Equity",
            Bank::Inspira => "Inspira",
            Bank::CharlesSchwab => "Charles Schwab",
        }
    }

    /// How accounts at this bank are kept up to date.
    pub fn import_strategy(&self) -> (r: ImportStrategy)
        ensures
            r == self.spec_import_strategy(),
    {
        match self {
            Bank::Usaa | Bank::Ally => ImportStrategy::Csv,
            Bank::Fidelity | Bank::HealthEquity | Bank::Inspira | Bank::CharlesSchwab => {
                ImportStrategy::ManualValuation
            },
        }
    }

    /// Every bank, in the order the account form lists them.
    pub fn all() -> (r: Vec<Bank>)
        ensures
            r@ == seq![Bank::Usaa, Bank::Ally, Bank::Fidelity, Bank::HealthEquity, Bank::Inspira, Bank::CharlesSchwab],
    {
        vec![Bank::Usaa, Bank::Ally, Bank::Fidelity, Bank::HealthEquity, Bank::Inspira, Bank::CharlesSchwab]
    }
}

/// Distinct banks have distinct stored names, so a stored name identifies its bank.
pub proof fn law_bank_names_distinct(a: Bank, b: Bank)
    requires
        a.spec_as_str() == b.spec_as_str(),
    ensures
        a == b,
{
    reveal_strlit("usaa");
    reveal_strlit("ally");
    reveal_strlit("fidelity");
    reveal_strlit("healthequity");
    reveal_strlit("inspira");
    reveal_strlit("charlesschwab");
    if a != b {
        match a {
            Bank::Usaa => assert(a.spec_as_str()[0] == 'u'),
            Bank::Ally => assert(a.spec_as_str()[0] == 'a'),
            Bank::Fidelity => assert(a.spec_as_str()[0] == 'f'),
            Bank::HealthEquity => assert(a.spec_as_str()[0] == 'h'),
            Bank::Inspira => assert(a.spec_as_str()[0] == 'i'),
            Bank::CharlesSchwab => assert(a.spec_as_str()[0] == 'c'),
        }
        match b {
            Bank::Usaa => assert(b.spec_as_str()[0] == 'u'),
            Bank::Ally => assert(b.spec_as_str()[0] == 'a'),
            Bank::Fidelity => assert(b.spec_as_str()[0] == 'f'),
            Bank::HealthEquity => assert(b.spec_as_str()[0] == 'h'),
            Bank::Inspira => assert(b.spec_as_str()[0] == 'i'),
            Bank::CharlesSchwab => assert(b.spec_as_str()[0] == 'c'),
        }
    }
}

/// An account of a user.
#[derive(Debug)]
pub struct Account {
    pub id: i64,
    pub name: String,
    pub bank: Bank,
}

/// The fields of the form that opens an account.
#[derive(Debug)]
pub struct AccountCreationForm {
    pub account_name: String,
    pub bank: Bank,
    pub opening_balance_string: String,
}

/// The field of the form that records an account's current balance.
#[derive(Debug)]
pub struct ValuationForm {
    pub balance_string: String,
}

/// Why the account form is shown again with an error.
#[derive(Debug, Clone, Copy, PartialEq, Eq)]
pub enum AccountFormError {
    /// The name is empty after trimming, or longer than a hundred bytes.
    NameInvalid,
    /// The opening balance is not an amount of dollars.
    BalanceInvalid,
    /// The user already has an account with that name.
    NameTaken,
}

impl AccountFormError {
    pub open spec fn spec_message(self) -> Seq<char> {
        match self {
            AccountFormError::NameInvalid => "Account name is required (max 100 chars)"@,
            AccountFormError::BalanceInvalid => "Invalid balance amount"@,
            AccountFormError::NameTaken => "An account with that name already exists"@,
        }
    }

    /// The message shown in the account form.
    pub fn message(&self) -> (r: &'static str)
        ensures
            r@ == self.spec_message(),
    {
        match self {
            AccountFormError::NameInvalid => "Account name is required (max 100 chars)",
            AccountFormError::BalanceInvalid => "Invalid balance amount",
            AccountFormError::NameTaken => "An account with that name already exists",
        }
    }
}

/// An account ready to be stored: a trimmed name and an opening balance in pennies.
#[derive(Debug)]
pub struct NewAccount {
    pub name: String,
    pub bank: Bank,
    pub opening_balance_pennies: i64,
}

/// Checks the account form: the trimmed name must be non-empty and at most a
/// hundred bytes of UTF-8, and the opening balance must convert to pennies.
pub fn check_account_form(form: &AccountCreationForm) -> (r: Result<NewAccount, AccountFormError>)
    ensures
        ({
            let name = spec_trim(form.account_name@);
            if name.len() == 0 || utf8_len(name) > 100 {
                r == Err::<NewAccount, AccountFormError>(AccountFormError::NameInvalid)
            } else {
                match spec_dollars_to_pennies(form.opening_balance_string@) {
                    Err(_) => r == Err::<NewAccount, AccountFormError>(AccountFormError::BalanceInvalid),
                    Ok(p) => r matches Ok(a) && a.name@ == name && a.bank == form.bank
                        && a.opening_balance_pennies == p,
                }
            }
        }),
{
    let v = chars_of(form.account_name.as_str());
    let (lo, hi) = trim_bounds(&v);
    let name = string_from(&v, lo, hi);
    let trimmed = chars_of(name.as_str());
    if lo == hi || utf8_len_exceeds(&trimmed, 100) {
        return Err(AccountFormError::NameInvalid);
    }
    match dollars_to_pennies(form.opening_balance_string.as_str()) {
        Ok(pennies) => Ok(NewAccount { name, bank: form.bank, opening_balance_pennies: pennies }),
        Err(_) => Err(AccountFormError::BalanceInvalid),
    }
}

/// Account names are unique per user: when the store kept no new row, the
/// form is shown again with `NameTaken`.
pub fn account_insert_reply(inserted: bool) -> (r: Result<(), AccountFormError>)
    ensures
        r == (if inserted { Ok::<(), AccountFormError>(()) } else { Err(AccountFormError::NameTaken) }),
{
    if inserted { Ok(()) } else { Err(AccountFormError::NameTaken) }
}

} // verus!

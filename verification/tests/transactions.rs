use homebase::pattern::Pattern;
use homebase::accounts::Bank;
use homebase::currency::DecimalValue;
use homebase::dates::PlainDate;
use homebase::transactions::{
    csv_format, duplicate_count, normalize_description, summarize_rows, AllyCsv, BankCsv, CsvFormat,
    DescriptionPatterns, RowOutcome, Status, UsaaCsv,
};

const DAY: PlainDate = PlainDate { year: 2026, month: 1, day: 2 };

fn usaa(desc: &str, cents: i128, status: Status) -> UsaaCsv {
    UsaaCsv {
        date: DAY,
        original_description: desc.to_string(),
        category: Some("Food".to_string()),
        amount: DecimalValue { mantissa: cents, scale: 2 },
        status,
    }
}

#[test]
fn status_parse_ignores_case() {
    assert_eq!(Status::parse("Posted"), Some(Status::Posted));
    assert_eq!(Status::parse("PENDING"), Some(Status::Pending));
    assert_eq!(Status::parse("cleared"), None);
    assert_eq!(Status::Posted.as_str(), "posted");
}

#[test]
fn descriptions_are_normalized() {
    let p = DescriptionPatterns::new().unwrap();
    assert_eq!(normalize_description("  Coffee   Shop *1234 ", &p), "COFFEE SHOP");
    assert_eq!(normalize_description("grocery\tstore", &p), "GROCERY STORE");
    assert_eq!(normalize_description("store 1234", &p), "STORE 1234");
    assert_eq!(normalize_description("", &p), "");
}

#[test]
fn usaa_rows_become_transactions() {
    let p = DescriptionPatterns::new().unwrap();
    match usaa("Coffee Shop *99", -450, Status::Posted).into_outcome(3, &p) {
        Ok(RowOutcome::Transaction(t)) => {
            assert_eq!(t.account_id, 3);
            assert_eq!(t.amount_pennies, -450);
            assert_eq!(t.description, "COFFEE SHOP");
            assert_eq!(t.raw_description, "Coffee Shop *99");
            assert_eq!(t.bank_category.as_deref(), Some("Food"));
            assert_eq!(t.status, Status::Posted);
            assert_eq!(t.date, DAY);
        }
        _ => panic!("expected a transaction"),
    }
    assert!(matches!(
        usaa("Pending thing", 100, Status::Pending).into_outcome(3, &p),
        Ok(RowOutcome::SkippedPending)
    ));
}

#[test]
fn ally_rows_are_posted() {
    let p = DescriptionPatterns::new().unwrap();
    let row = AllyCsv { date: DAY, amount: DecimalValue { mantissa: 1234, scale: 1 }, description: "Payroll".into() };
    match row.into_outcome(4, &p) {
        Ok(RowOutcome::Transaction(t)) => {
            assert_eq!(t.amount_pennies, 12340);
            assert_eq!(t.status, Status::Posted);
            assert!(t.bank_category.is_none());
        }
        _ => panic!("expected a transaction"),
    }
}

#[test]
fn summary_accounts_for_every_row() {
    let p = DescriptionPatterns::new().unwrap();
    let huge = UsaaCsv {
        amount: DecimalValue { mantissa: i64::MAX as i128, scale: 0 },
        ..usaa("Huge", 0, Status::Posted)
    };
    let rows = vec![
        Some(usaa("a", 100, Status::Posted)),
        None,
        Some(usaa("b", 200, Status::Pending)),
        Some(huge),
        Some(usaa("c", -300, Status::Posted)),
    ];
    let s = summarize_rows(rows, 9, &p);
    assert_eq!(s.parsed.len(), 2);
    assert_eq!(s.skipped_pending, 1);
    assert_eq!(s.parse_errors, 2);
    let amounts: Vec<i64> = s.parsed.iter().map(|t| t.amount_pennies).collect();
    assert_eq!(amounts, vec![100, -300]);
    assert!(s.parsed.iter().all(|t| t.account_id == 9));
}

#[test]
fn import_formats_and_duplicates() {
    assert_eq!(csv_format(Bank::Usaa), Some(CsvFormat::Usaa));
    assert_eq!(csv_format(Bank::Ally), Some(CsvFormat::Ally));
    assert_eq!(csv_format(Bank::Inspira), None);
    assert_eq!(duplicate_count(10, 7), 3);
    assert_eq!(duplicate_count(0, 0), 0);
}

#[test]
fn invalid_patterns_do_not_compile() {
    assert!(Pattern::compile("(").is_none());
    assert!(Pattern::compile("\\s+").is_some());
    assert!(DescriptionPatterns::new().is_some());
}

#[test]
fn summary_keeps_each_rows_contents() {
    let p = DescriptionPatterns::new().unwrap();
    let rows = vec![
        Some(usaa("Corner  Cafe *7788", -1250, Status::Posted)),
        Some(usaa("Later", 10, Status::Pending)),
        Some(usaa("book store", 999, Status::Posted)),
    ];
    let s = summarize_rows(rows, 5, &p);
    assert_eq!(s.parsed.len(), 2);
    let first = &s.parsed[0];
    assert_eq!(first.description, "CORNER CAFE");
    assert_eq!(first.raw_description, "Corner  Cafe *7788");
    assert_eq!(first.date, DAY);
    assert_eq!(first.bank_category.as_deref(), Some("Food"));
    assert_eq!(first.status, Status::Posted);
    assert_eq!(first.amount_pennies, -1250);
    let second = &s.parsed[1];
    assert_eq!(second.description, "BOOK STORE");
    assert_eq!(second.raw_description, "book store");
    assert_eq!(second.amount_pennies, 999);
}

#[test]
fn pending_rows_are_skipped_whatever_their_amount() {
    let p = DescriptionPatterns::new().unwrap();
    let huge = DecimalValue { mantissa: 79_228_162_514_264_337_593_543_950_335, scale: 0 };
    let pending = UsaaCsv { amount: huge, ..usaa("Hold", 0, Status::Pending) };
    assert!(matches!(pending.into_outcome(1, &p), Ok(RowOutcome::SkippedPending)));
    let rows = vec![
        Some(UsaaCsv { amount: huge, ..usaa("Hold", 0, Status::Pending) }),
        Some(usaa("Paid", 250, Status::Posted)),
    ];
    let s = summarize_rows(rows, 1, &p);
    assert_eq!(s.skipped_pending, 1);
    assert_eq!(s.parse_errors, 0);
    assert_eq!(s.parsed.len(), 1);
    assert_eq!(s.parsed[0].amount_pennies, 250);
}

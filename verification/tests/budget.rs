use homebase::budget::{
    budget_totals, chart_extent, chart_range, check_entry_amount, entry_reply, pay_period_is_valid, waterfall_bars,
    BudgetEntry, EntryReply, EntrySubmission, EntryType,
};
use homebase::dates::PlainDate;

fn entry(id: i64, label: &str, amount: i64, entry_type: EntryType) -> BudgetEntry {
    BudgetEntry { id, label: label.to_string(), amount, entry_type }
}

#[test]
fn totals_of_salary_and_rent() {
    let entries = vec![
        entry(1, "salary", 300000, EntryType::Income),
        entry(2, "rent", 120000, EntryType::Expense),
    ];
    let t = budget_totals(&entries);
    assert_eq!(t.income, 300000);
    assert_eq!(t.expenses, 120000);
    assert_eq!(t.remaining, 180000);
    assert_eq!(homebase::currency::format_pennies(t.remaining), "$1800.00");
}

#[test]
fn totals_of_no_entries() {
    let t = budget_totals(&Vec::new());
    assert_eq!((t.income, t.expenses, t.remaining), (0, 0, 0));
}

#[test]
fn waterfall_chains_bars_and_ends_at_remaining() {
    let entries = vec![
        entry(1, "salary", 300000, EntryType::Income),
        entry(2, "rent", 120000, EntryType::Expense),
        entry(3, "car", 250000, EntryType::Expense),
    ];
    let bars = waterfall_bars(&entries);
    assert_eq!(bars.len(), 4);
    assert_eq!((bars[0].start, bars[0].end), (0, 300000));
    assert_eq!((bars[1].start, bars[1].end), (300000, 180000));
    assert_eq!((bars[2].start, bars[2].end), (180000, -70000));
    assert_eq!(bars[3].label, "Remaining");
    assert_eq!((bars[3].start, bars[3].end), (0, -70000));
    assert_eq!(bars[3].kind, EntryType::Expense);
    assert_eq!(bars[1].label, "rent");
    assert_eq!(bars[3].end, budget_totals(&entries).remaining);
    assert_eq!(chart_extent(&bars), (300000, -70000));
}

#[test]
fn waterfall_of_nothing_is_a_zero_remaining_bar() {
    let bars = waterfall_bars(&Vec::new());
    assert_eq!(bars.len(), 1);
    assert_eq!((bars[0].start, bars[0].end), (0, 0));
    assert_eq!(bars[0].kind, EntryType::Income);
    assert_eq!(chart_extent(&bars), (0, 0));
}

#[test]
fn entry_type_names() {
    assert_eq!(EntryType::Income.as_str(), "income");
    assert_eq!(EntryType::Expense.as_str(), "expense");
}

#[test]
fn pay_period_must_start_before_it_ends() {
    let jan1 = PlainDate { year: 2026, month: 1, day: 1 };
    let jan15 = PlainDate { year: 2026, month: 1, day: 15 };
    let dec31 = PlainDate { year: 2025, month: 12, day: 31 };
    assert!(pay_period_is_valid(&jan1, &jan15));
    assert!(!pay_period_is_valid(&jan15, &jan1));
    assert!(!pay_period_is_valid(&jan1, &jan1));
    assert!(pay_period_is_valid(&dec31, &jan1));
}

#[test]
fn entry_amounts_decide_the_reply() {
    assert_eq!(check_entry_amount("3000.00"), EntrySubmission::Store { pennies: 300000 });
    assert_eq!(check_entry_amount("not_a_number"), EntrySubmission::InvalidAmount);
    assert_eq!(check_entry_amount("1e400"), EntrySubmission::InvalidAmount);
    assert_eq!(entry_reply(true), EntryReply::Table);
    assert_eq!(entry_reply(false), EntryReply::Forbidden);
}

#[test]
fn chart_of_only_income_still_reaches_zero() {
    let entries = vec![entry(1, "Salary", 5000, EntryType::Income)];
    let bars = waterfall_bars(&entries);
    let (top, bottom) = chart_extent(&bars);
    assert_eq!(top, 5000);
    assert_eq!(bottom, 0);
}

#[test]
fn chart_range_is_at_least_one() {
    assert_eq!(chart_range(0, 0), 1);
    assert_eq!(chart_range(300000, -70000), 370000);
}

#[test]
fn bar_change_is_what_the_label_shows() {
    let entries = vec![
        entry(1, "Salary", 300000, EntryType::Income),
        entry(2, "Rent", 120000, EntryType::Expense),
    ];
    let bars = waterfall_bars(&entries);
    assert_eq!(bars[0].change(), 300000);
    assert_eq!(bars[1].change(), -120000);
    assert_eq!(bars[2].change(), 180000);
}

use homebase::currency::format_pennies;
use homebase::text::title_case;

#[test]
fn templates_format_pennies_positive() {
    assert_eq!(format_pennies(1050), "$10.50");
}

#[test]
fn templates_format_pennies_negative() {
    assert_eq!(format_pennies(-1050), "-$10.50");
}

#[test]
fn templates_format_pennies_negative_less_than_dollar() {
    assert_eq!(format_pennies(-5), "-$0.05");
}

#[test]
fn templates_title_case_basic() {
    assert_eq!(title_case("hello world"), "Hello World");
}

#[test]
fn templates_title_case_already_upper() {
    assert_eq!(title_case("HELLO"), "Hello");
}

#[test]
fn templates_title_case_lowercases_rest() {
    assert_eq!(title_case("hELLO wORLD"), "Hello World");
}

#[test]
fn currency_format_pennies_positive() {
    assert_eq!(format_pennies(1050), "$10.50");
}

#[test]
fn currency_format_pennies_negative() {
    assert_eq!(format_pennies(-1050), "-$10.50");
}

#[test]
fn currency_format_pennies_negative_less_than_dollar() {
    assert_eq!(format_pennies(-5), "-$0.05");
}

#[test]
fn render_budget_table_format_pennies_positive() {
    assert_eq!(format_pennies(1050), "$10.50");
}

#[test]
fn render_budget_table_format_pennies_negative() {
    assert_eq!(format_pennies(-1050), "-$10.50");
}

#[test]
fn render_budget_table_format_pennies_negative_less_than_dollar() {
    assert_eq!(format_pennies(-5), "-$0.05");
}

#[test]
fn render_budget_table_title_case_basic() {
    assert_eq!(title_case("hello world"), "Hello World");
}

#[test]
fn render_budget_table_title_case_already_upper() {
    assert_eq!(title_case("HELLO"), "Hello");
}

#[test]
fn render_budget_table_title_case_lowercases_rest() {
    assert_eq!(title_case("hELLO wORLD"), "Hello World");
}

#[test]
fn format_pennies_extremes() {
    assert_eq!(format_pennies(0), "$0.00");
    assert_eq!(format_pennies(7), "$0.07");
    assert_eq!(format_pennies(180000), "$1800.00");
    assert_eq!(format_pennies(i64::MAX), "$92233720368547758.07");
    assert_eq!(format_pennies(i64::MIN), "-$92233720368547758.08");
}

#[test]
fn title_case_collapses_whitespace() {
    assert_eq!(title_case("  rent \t and\n  utilities  "), "Rent And Utilities");
    assert_eq!(title_case(""), "");
    assert_eq!(title_case("   "), "");
    assert_eq!(title_case("income"), "Income");
}

#[test]
fn title_case_unicode_words() {
    assert_eq!(title_case("élan ÉCOLE"), "Élan École");
    assert_eq!(title_case("ßa"), "SSa");
}

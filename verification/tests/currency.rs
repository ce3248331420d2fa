use homebase::currency::{decimal_to_pennies, dollars_to_pennies, format_pennies, CurrencyError, DecimalValue};

#[test]
fn dollars_to_pennies_plain_amounts() {
    assert_eq!(dollars_to_pennies("3000.00"), Ok(300000));
    assert_eq!(dollars_to_pennies("1200"), Ok(120000));
    assert_eq!(dollars_to_pennies("-10.5"), Ok(-1050));
    assert_eq!(dollars_to_pennies("0.07"), Ok(7));
}

#[test]
fn dollars_to_pennies_rounds_half_to_even() {
    assert_eq!(dollars_to_pennies("0.125"), Ok(12));
    assert_eq!(dollars_to_pennies("0.135"), Ok(14));
    assert_eq!(dollars_to_pennies("-0.125"), Ok(-12));
    assert_eq!(dollars_to_pennies("1.0051"), Ok(101));
}

#[test]
fn dollars_to_pennies_rejects_text() {
    assert_eq!(dollars_to_pennies("not_a_number"), Err(CurrencyError::InvalidAmount));
    assert_eq!(dollars_to_pennies(""), Err(CurrencyError::InvalidAmount));
    assert_eq!(dollars_to_pennies("$10"), Err(CurrencyError::InvalidAmount));
}

#[test]
fn dollars_to_pennies_out_of_range() {
    assert_eq!(dollars_to_pennies("92233720368547758.08"), Err(CurrencyError::InvalidAmount));
    assert_eq!(dollars_to_pennies("92233720368547758.07"), Ok(i64::MAX));
    assert_eq!(dollars_to_pennies("-92233720368547758.08"), Ok(i64::MIN));
    assert_eq!(
        dollars_to_pennies("79228162514264337593543950335"),
        Err(CurrencyError::AmountOutOfRange)
    );
}

#[test]
fn decimal_to_pennies_exact_values() {
    assert_eq!(decimal_to_pennies(DecimalValue { mantissa: 1050, scale: 2 }), Ok(1050));
    assert_eq!(decimal_to_pennies(DecimalValue { mantissa: -25, scale: 3 }), Ok(-2));
    assert_eq!(decimal_to_pennies(DecimalValue { mantissa: 35, scale: 3 }), Ok(4));
    assert_eq!(decimal_to_pennies(DecimalValue { mantissa: 15, scale: 0 }), Ok(1500));
    assert_eq!(
        decimal_to_pennies(DecimalValue { mantissa: i64::MAX as i128, scale: 0 }),
        Err(CurrencyError::InvalidAmount)
    );
}

#[test]
fn formatted_amount_parses_back() {
    for p in [0i64, 5, -5, 1050, -1050, 180000, 99_999_999_999_999, i64::MAX, i64::MIN, i64::MIN + 1] {
        let text = homebase::currency::format_pennies(p).replacen('$', "", 1);
        assert_eq!(dollars_to_pennies(&text), Ok(p));
    }
}

#[test]
fn negative_amount_is_positive_amount_with_sign() {
    for p in [1i64, 5, 99, 100, 1050, 123456789] {
        assert_eq!(format_pennies(-p), format!("-{}", format_pennies(p)));
        assert!(!format_pennies(p).starts_with('-'));
    }
    assert_eq!(format_pennies(0), "$0.00");
}

#[test]
fn decimal_to_pennies_at_the_edges_of_the_decimal_range() {
    let max: i128 = 79_228_162_514_264_337_593_543_950_335;
    // 7.92...: a hundred times is 792.28..., rounded to 792.
    assert_eq!(decimal_to_pennies(DecimalValue { mantissa: max, scale: 28 }), Ok(792));
    assert_eq!(decimal_to_pennies(DecimalValue { mantissa: -max, scale: 28 }), Ok(-792));
    // The product needs more than 96 bits; the decimal drops the trailing zeros.
    assert_eq!(
        decimal_to_pennies(DecimalValue { mantissa: max, scale: 20 }),
        Ok(79_228_162_514)
    );
    assert_eq!(decimal_to_pennies(DecimalValue { mantissa: max, scale: 2 }), Err(CurrencyError::InvalidAmount));
    // A half goes to the even neighbour.
    assert_eq!(decimal_to_pennies(DecimalValue { mantissa: 5, scale: 3 }), Ok(0));
    assert_eq!(decimal_to_pennies(DecimalValue { mantissa: 15, scale: 3 }), Ok(2));
    assert_eq!(decimal_to_pennies(DecimalValue { mantissa: 0, scale: 5 }), Ok(0));
}

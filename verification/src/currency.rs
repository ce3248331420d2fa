//! Money helpers: amounts are stored as integer pennies.

use vstd::prelude::*;
use crate::text::push_char;

verus! {

/// The ASCII decimal digit for `d` (`0 <= d < 10`).
pub open spec fn digit_char(d: nat) -> char {
    (48 + d) as char
}

/// The decimal notation of `n`, without leading zeros.
pub open spec fn decimal_digits(n: nat) -> Seq<char>
    decreases n,
{
    if n < 10 {
        seq![digit_char(n)]
    } else {
        decimal_digits(n / 10).push(digit_char(n % 10))
    }
}

pub open spec fn abs_int(x: int) -> nat {
    if x < 0 { (-x) as nat } else { x as nat }
}

/// `pennies` written as dollars: an optional minus sign, `$`, the whole dollars,
/// a point and exactly two digits of cents.
pub open spec fn spec_format_pennies(pennies: int) -> Seq<char> {
    let a = abs_int(pennies);
    (if pennies < 0 { seq!['-'] } else { Seq::<char>::empty() })
        + seq!['$']
        + decimal_digits(a / 100)
        + seq!['.', digit_char((a % 100) / 10), digit_char(a % 10)]
}

fn digit(d: u64) -> (c: char)
    requires
        d < 10,
    ensures
        c == digit_char(d as nat),
{
    let b: u8 = 48u8 + (d as u8);
    b as char
}

fn push_decimal(s: &mut String, n: u64)
    ensures
        final(s)@ == old(s)@ + decimal_digits(n as nat),
    decreases n,
{
    if n >= 10 {
        push_decimal(s, n / 10);
    }
    push_char(s, digit(n % 10));
}

/// Formats an amount of pennies as dollars, such as `-$10.50` for `-1050`.
pub fn format_pennies(pennies: i64) -> (r: String)
    ensures
        r@ == spec_format_pennies(pennies as int),
{
    let abs: u64 = if pennies < 0 {
        ((-(pennies + 1)) as u64) + 1
    } else {
        pennies as u64
    };
    let mut s = String::new();
    if pennies < 0 {
        push_char(&mut s, '-');
    }
    push_char(&mut s, '$');
    push_decimal(&mut s, abs / 100);
    push_char(&mut s, '.');
    push_char(&mut s, digit((abs % 100) / 10));
    push_char(&mut s, digit(abs % 10));
    s
}


/// A negative amount is written as its positive counterpart with a leading
/// minus sign, and only negative amounts start with one.
pub proof fn law_negative_amounts_carry_a_sign(pennies: int)
    ensures
        pennies > 0 ==> spec_format_pennies(-pennies) == seq!['-'] + spec_format_pennies(pennies),
        (spec_format_pennies(pennies)[0] == '-') <==> pennies < 0,
{
    if pennies > 0 {
        assert(spec_format_pennies(-pennies) =~= seq!['-'] + spec_format_pennies(pennies));
    }
}

/// Why an amount could not be turned into pennies.
#[derive(Debug, Clone, Copy, PartialEq, Eq)]
pub enum CurrencyError {
    /// The text is not a decimal number, or the rounded amount of pennies does
    /// not fit in an `i64` (the decimal crate refuses that conversion).
    InvalidAmount,
    /// The amount is too large to be multiplied by a hundred at all.
    AmountOutOfRange,
}

/// The largest mantissa a decimal number can have: `2^96 - 1`.
pub open spec fn max_mantissa() -> int {
    79_228_162_514_264_337_593_543_950_335
}

/// A decimal number `mantissa / 10^scale`, as `rust_decimal::Decimal` holds it.
#[derive(Debug, Clone, Copy, PartialEq, Eq)]
pub struct DecimalValue {
    pub mantissa: i128,
    pub scale: u32,
}

impl DecimalValue {
    /// The range of `rust_decimal::Decimal`: `|mantissa| < 2^96` and `scale <= 28`.
    pub open spec fn well_formed(self) -> bool {
        -max_mantissa() <= self.mantissa <= max_mantissa() && self.scale <= 28
    }
}

pub open spec fn pow10(n: nat) -> nat
    decreases n,
{
    if n == 0 { 1 } else { 10 * pow10((n - 1) as nat) }
}

/// `a / d` rounded to the nearest integer, halves going to the even neighbour.
pub open spec fn round_half_even(a: nat, d: nat) -> nat {
    let q = a / d;
    let r = a % d;
    if 2 * r > d || (2 * r == d && q % 2 == 1) { (q + 1) as nat } else { q }
}

/// `mantissa / 10^scale` times a hundred, rounded half to even: the number of
/// pennies in an amount of dollars.
pub open spec fn hundredfold_rounded(mantissa: int, scale: nat) -> int {
    let mag = round_half_even(abs_int(mantissa) * 100, pow10(scale));
    if mantissa < 0 { -mag } else { mag as int }
}

/// Whether multiplying the decimal by a hundred leaves the range of a decimal
/// number (a scale of 0 or 1 cannot absorb the extra digits).
pub open spec fn hundredfold_overflows(mantissa: int, scale: nat) -> bool {
    (scale == 0 && abs_int(mantissa) * 100 > max_mantissa())
        || (scale == 1 && abs_int(mantissa) * 10 > max_mantissa())
}

pub open spec fn fits_i64(x: int) -> bool {
    i64::MIN <= x <= i64::MAX
}

/// The pennies in `mantissa / 10^scale` dollars, or `InvalidAmount` when they
/// do not fit in an `i64`.
pub open spec fn spec_decimal_to_pennies(mantissa: int, scale: nat) -> Result<i64, CurrencyError> {
    let p = hundredfold_rounded(mantissa, scale);
    if fits_i64(p) { Ok(p as i64) } else { Err(CurrencyError::InvalidAmount) }
}

proof fn lemma_pow10_mono(i: nat, j: nat)
    requires
        i <= j,
    ensures
        1 <= pow10(i) <= pow10(j),
    decreases j,
{
    if j > 0 {
        if i < j {
            lemma_pow10_mono(i, (j - 1) as nat);
        } else {
            lemma_pow10_mono(0, (j - 1) as nat);
        }
    }
}

proof fn lemma_pow10_add(a: nat, b: nat)
    ensures
        pow10(a + b) == pow10(a) * pow10(b),
    decreases a,
{
    if a > 0 {
        let a1 = (a - 1) as nat;
        lemma_pow10_add(a1, b);
        assert((a1 + b) as nat == (a + b - 1) as nat);
        assert(pow10(a + b) == 10 * pow10((a1 + b) as nat));
        assert(pow10(a) == 10 * pow10(a1));
        assert(10 * (pow10(a1) * pow10(b)) == (10 * pow10(a1)) * pow10(b)) by (nonlinear_arith);
    } else {
        assert(pow10(0) == 1);
        assert(a + b == b);
    }
}

/// Rounding `a / d` gives the same whole number as rounding `(a * c) / (d * c)`.
proof fn lemma_round_half_even_scaled(a: nat, d: nat, c: nat)
    requires
        d > 0,
        c > 0,
    ensures
        round_half_even(a * c, d * c) == round_half_even(a, d),
{
    let q = (a / d) as int;
    let r = (a % d) as int;
    vstd::arithmetic::div_mod::lemma_fundamental_div_mod(a as int, d as int);
    assert(a * c == q * (d * c) + r * c) by (nonlinear_arith)
        requires
            a == d * q + r,
    ;
    assert(0 <= r * c < d * c) by (nonlinear_arith)
        requires
            0 <= r < d,
            c > 0,
    ;
    vstd::arithmetic::div_mod::lemma_fundamental_div_mod_converse((a * c) as int, (d * c) as int, q, r * c);
    assert((2 * (r * c) > d * c) == (2 * r > d)) by (nonlinear_arith)
        requires
            c > 0,
    ;
    assert((2 * (r * c) == d * c) == (2 * r == d)) by (nonlinear_arith)
        requires
            c > 0,
    ;
}

/// The whole part of `mantissa / 10^scale`, cut toward zero.
pub open spec fn truncated(mantissa: int, scale: nat) -> int {
    let mag = abs_int(mantissa) / pow10(scale);
    if mantissa < 0 { -mag } else { mag as int }
}

/// `Decimal::from_i128_with_scale(m, s) * Decimal::ONE_HUNDRED`, read back as
/// mantissa and scale. The product is exact: rust_decimal multiplies the
/// mantissas and keeps the scale, and when that mantissa needs more than 96
/// bits it drops trailing digits, which are the zeros the factor added, so the
/// scale may come out lower but the value is a hundred times `d`. It panics
/// only when the scale is too small to drop them (`hundredfold_overflows`).
#[verifier::external_body]
fn times_hundred(d: DecimalValue) -> (r: DecimalValue)
    requires
        d.well_formed(),
        !hundredfold_overflows(d.mantissa as int, d.scale as nat),
    ensures
        r.well_formed(),
        r.scale <= d.scale,
        r.mantissa * pow10((d.scale - r.scale) as nat) == 100 * d.mantissa,
{
    let x = rust_decimal::Decimal::from_i128_with_scale(d.mantissa, d.scale) * rust_decimal::Decimal::ONE_HUNDRED;
    DecimalValue { mantissa: x.mantissa(), scale: x.scale() }
}

/// `Decimal::round`: the decimal rounded to a whole number (scale zero), a
/// half going to the even neighbour; the sign is kept.
#[verifier::external_body]
fn round_to_whole(d: DecimalValue) -> (r: DecimalValue)
    requires
        d.well_formed(),
    ensures
        r.well_formed(),
        r.scale == 0,
        r.mantissa == (if d.mantissa < 0 {
            -round_half_even(abs_int(d.mantissa as int), pow10(d.scale as nat))
        } else {
            round_half_even(abs_int(d.mantissa as int), pow10(d.scale as nat)) as int
        }),
{
    let x = rust_decimal::Decimal::from_i128_with_scale(d.mantissa, d.scale).round();
    DecimalValue { mantissa: x.mantissa(), scale: x.scale() }
}

/// `i64::try_from(Decimal)`: the decimal cut toward zero, when that fits in an
/// `i64`; `None` otherwise.
#[verifier::external_body]
fn whole_to_i64(d: DecimalValue) -> (r: Option<i64>)
    requires
        d.well_formed(),
    ensures
        r == (if fits_i64(truncated(d.mantissa as int, d.scale as nat)) {
            Some(truncated(d.mantissa as int, d.scale as nat) as i64)
        } else {
            None
        }),
{
    i64::try_from(rust_decimal::Decimal::from_i128_with_scale(d.mantissa, d.scale)).ok()
}

/// Multiplies an amount of dollars by a hundred and rounds half to even: the
/// pennies it holds, or `InvalidAmount` when they do not fit in an `i64`.
pub fn decimal_to_pennies(d: DecimalValue) -> (r: Result<i64, CurrencyError>)
    requires
        d.well_formed(),
        !hundredfold_overflows(d.mantissa as int, d.scale as nat),
    ensures
        r == spec_decimal_to_pennies(d.mantissa as int, d.scale as nat),
{
    let x = times_hundred(d);
    let y = round_to_whole(x);
    proof {
        let k = (d.scale - x.scale) as nat;
        let c = pow10(k);
        lemma_pow10_mono(0, k);
        lemma_pow10_mono(0, x.scale as nat);
        lemma_pow10_add(x.scale as nat, k);
        assert(pow10(d.scale as nat) == pow10(x.scale as nat) * c);
        assert(abs_int(x.mantissa as int) * c == abs_int(d.mantissa as int) * 100) by (nonlinear_arith)
            requires
                x.mantissa * c == 100 * d.mantissa,
                c >= 1,
        ;
        assert((x.mantissa < 0) == (d.mantissa < 0)) by (nonlinear_arith)
            requires
                x.mantissa * c == 100 * d.mantissa,
                c >= 1,
        ;
        lemma_round_half_even_scaled(abs_int(x.mantissa as int), pow10(x.scale as nat), c);
        assert(pow10(0) == 1);
        assert(abs_int(y.mantissa as int) / pow10(0) == abs_int(y.mantissa as int));
        assert(truncated(y.mantissa as int, 0) == y.mantissa);
    }
    match whole_to_i64(y) {
        Some(p) => Ok(p),
        None => Err(CurrencyError::InvalidAmount),
    }
}


pub open spec fn is_ascii_digit(c: char) -> bool {
    '0' <= c && c <= '9'
}

pub open spec fn all_ascii_digits(s: Seq<char>) -> bool {
    forall|i: int| 0 <= i < s.len() ==> is_ascii_digit(#[trigger] s[i])
}

/// The number that a string of ASCII digits denotes.
pub open spec fn digits_value(s: Seq<char>) -> nat
    decreases s.len(),
{
    if s.len() == 0 {
        0
    } else {
        digits_value(s.drop_last()) * 10 + ((s.last() as int) - 48) as nat
    }
}

/// `s` without a leading minus sign.
pub open spec fn unsigned_part(s: Seq<char>) -> Seq<char> {
    if s.len() > 0 && s[0] == '-' { s.drop_first() } else { s }
}

/// `s` is a plain decimal of at most 28 digits: an optional `-`, then either
/// one or more ASCII digits, or ASCII digits (possibly none, as in `.50`), a
/// point and one or more digits; `k` is the position of the point after the
/// sign (the length of the unsigned part when there is none).
pub open spec fn is_plain_decimal(s: Seq<char>, k: int) -> bool {
    let u = unsigned_part(s);
    &&& (if k == u.len() { u.len() as int } else { u.len() - 1 }) <= 28
    &&& 0 <= k <= u.len()
    &&& all_ascii_digits(u.take(k))
    &&& ((1 <= k && k == u.len())
        || (k < u.len() && u[k] == '.' && k + 1 < u.len() && all_ascii_digits(u.skip(k + 1))))
}

/// The mantissa and scale that a plain decimal denotes.
pub open spec fn plain_decimal_value(s: Seq<char>, k: int) -> (int, nat) {
    let u = unsigned_part(s);
    let digits = if k == u.len() { u } else { u.take(k) + u.skip(k + 1) };
    let mag = digits_value(digits) as int;
    (if s[0] == '-' { -mag } else { mag }, (if k == u.len() { 0 } else { (u.len() - k - 1) as nat }))
}

/// What `<rust_decimal::Decimal as FromStr>::from_str` gives for `s`, as the
/// mantissa and scale of the decimal, or `None` when it fails.
pub uninterp spec fn decimal_from_str(s: Seq<char>) -> Option<(int, nat)>;

/// `s.parse::<rust_decimal::Decimal>()`, read back as mantissa and scale
/// (`Decimal::mantissa`, `Decimal::scale`). Every decimal lies in the range
/// `|mantissa| < 2^96`, `scale <= 28`, and a plain decimal of at most 28
/// digits such as `-10.50` or `.5` parses exactly: its digits are the mantissa
/// and the number of fraction digits is the scale.
#[verifier::external_body]
fn parse_decimal(s: &str) -> (r: Option<DecimalValue>)
    ensures
        decimal_from_str(s@) == (match r {
            Some(d) => Some((d.mantissa as int, d.scale as nat)),
            None => None,
        }),
        r matches Some(d) ==> d.well_formed(),
        forall|k: int| #[trigger] is_plain_decimal(s@, k) ==> r is Some
            && r->0.mantissa as int == plain_decimal_value(s@, k).0
            && r->0.scale as nat == plain_decimal_value(s@, k).1,
{
    s.parse::<rust_decimal::Decimal>().ok().map(|d| DecimalValue { mantissa: d.mantissa(), scale: d.scale() })
}

/// The pennies in a parsed amount of dollars.
pub open spec fn pennies_of_decimal(m: int, sc: nat) -> Result<i64, CurrencyError> {
    if hundredfold_overflows(m, sc) {
        Err(CurrencyError::AmountOutOfRange)
    } else {
        spec_decimal_to_pennies(m, sc)
    }
}

/// The pennies in the amount of dollars written in `s`.
pub open spec fn spec_dollars_to_pennies(s: Seq<char>) -> Result<i64, CurrencyError> {
    match decimal_from_str(s) {
        None => Err(CurrencyError::InvalidAmount),
        Some((m, sc)) => pennies_of_decimal(m, sc),
    }
}

/// Whether the decimal can be multiplied by a hundred without leaving the
/// range of a decimal number (`decimal_to_pennies` asks for this).
pub fn multiplies_by_hundred(d: DecimalValue) -> (r: bool)
    requires
        d.well_formed(),
    ensures
        r == !hundredfold_overflows(d.mantissa as int, d.scale as nat),
{
    let m: u128 = if d.mantissa < 0 { (-d.mantissa) as u128 } else { d.mantissa as u128 };
    let max: u128 = 79_228_162_514_264_337_593_543_950_335;
    !((d.scale == 0 && m * 100 > max) || (d.scale == 1 && m * 10 > max))
}

/// Parses an amount of dollars such as `"3000.00"` into pennies (`300000`),
/// rounding half to even past the cents. Text that is not a decimal number, or
/// an amount whose pennies do not fit in an `i64`, is `InvalidAmount`; an amount
/// too large to be multiplied by a hundred at all is `AmountOutOfRange`.
pub fn dollars_to_pennies(s: &str) -> (r: Result<i64, CurrencyError>)
    ensures
        r == spec_dollars_to_pennies(s@),
        forall|k: int| #[trigger] is_plain_decimal(s@, k)
            ==> r == pennies_of_decimal(plain_decimal_value(s@, k).0, plain_decimal_value(s@, k).1),
{
    match parse_decimal(s) {
        None => Err(CurrencyError::InvalidAmount),
        Some(d) => {
            if multiplies_by_hundred(d) {
                decimal_to_pennies(d)
            } else {
                Err(CurrencyError::AmountOutOfRange)
            }
        },
    }
}


/// The pennies of an amount of dollars depend on the decimal the text denotes
/// and on nothing else: text that parses to mantissa `m` and scale `sc` gives
/// the pennies of `m / 10^sc`, text that does not parse is `InvalidAmount`,
/// and two texts that parse to the same decimal give the same result.
pub proof fn law_pennies_depend_only_on_the_decimal(s1: Seq<char>, s2: Seq<char>)
    ensures
        decimal_from_str(s1) matches Some((m, sc)) ==> spec_dollars_to_pennies(s1) == pennies_of_decimal(m, sc),
        decimal_from_str(s1) is None ==> spec_dollars_to_pennies(s1) == Err::<i64, CurrencyError>(CurrencyError::InvalidAmount),
        decimal_from_str(s1) == decimal_from_str(s2) ==> spec_dollars_to_pennies(s1) == spec_dollars_to_pennies(s2),
{
}

proof fn lemma_digits_value_leading_zero(ds: Seq<char>)
    ensures
        digits_value(seq!['0'] + ds) == digits_value(ds),
    decreases ds.len(),
{
    let z = seq!['0'] + ds;
    if ds.len() == 0 {
        assert(z.drop_last() =~= Seq::<char>::empty());
        assert(z.last() == '0');
        assert(('0' as int) - 48 == 0);
        assert(digits_value(z) == digits_value(z.drop_last()) * 10 + ((z.last() as int) - 48) as nat);
        assert(digits_value(Seq::<char>::empty()) == 0);
    } else {
        lemma_digits_value_leading_zero(ds.drop_last());
        assert(z.drop_last() =~= seq!['0'] + ds.drop_last());
        assert(z.last() == ds.last());
        assert(digits_value(z) == digits_value(z.drop_last()) * 10 + ((z.last() as int) - 48) as nat);
        assert(digits_value(ds) == digits_value(ds.drop_last()) * 10 + ((ds.last() as int) - 48) as nat);
    }
}

/// A leading zero before the point changes nothing: `.50` and `0.50` are both
/// plain decimals and denote the same mantissa and scale, so they give the same
/// pennies.
pub proof fn law_leading_zero_does_not_matter(ds: Seq<char>)
    requires
        1 <= ds.len() <= 27,
        all_ascii_digits(ds),
    ensures
        is_plain_decimal(seq!['.'] + ds, 0),
        is_plain_decimal(seq!['0', '.'] + ds, 1),
        plain_decimal_value(seq!['.'] + ds, 0) == plain_decimal_value(seq!['0', '.'] + ds, 1),
{
    let a = seq!['.'] + ds;
    let b = seq!['0', '.'] + ds;
    assert(unsigned_part(a) =~= a);
    assert(unsigned_part(b) =~= b);
    assert(a.take(0) =~= Seq::<char>::empty());
    assert(a.skip(1) =~= ds);
    assert(b.take(1) =~= seq!['0']);
    assert(b.skip(2) =~= ds);
    assert(all_ascii_digits(b.take(1)));
    assert(a.take(0) + a.skip(1) =~= ds);
    assert(b.take(1) + b.skip(2) =~= seq!['0'] + ds);
    lemma_digits_value_leading_zero(ds);
}

/// Writing a decimal with more fraction digits, as `0.5` is `0.50`, does not
/// change its pennies: `m * 10^k` at scale `sc + k` gives what `m` at `sc` gives.
pub proof fn law_trailing_zeros_do_not_matter(m: int, sc: nat, k: nat)
    requires
        -max_mantissa() <= m * pow10(k) <= max_mantissa(),
    ensures
        pennies_of_decimal(m * pow10(k), sc + k) == pennies_of_decimal(m, sc),
{
    let c = pow10(k);
    let mc = m * c;
    lemma_pow10_mono(0, k);
    lemma_pow10_mono(0, sc);
    lemma_pow10_add(sc, k);
    assert(pow10(sc + k) == pow10(sc) * c);
    assert(abs_int(mc) == abs_int(m) * c) by (nonlinear_arith)
        requires
            c >= 1,
            mc == m * c,
    ;
    assert(abs_int(mc) * 100 == (abs_int(m) * 100) * c) by (nonlinear_arith)
        requires
            abs_int(mc) == abs_int(m) * c,
    ;
    lemma_round_half_even_scaled(abs_int(m) * 100, pow10(sc), c);
    assert(round_half_even(abs_int(mc) * 100, pow10(sc + k)) == round_half_even(abs_int(m) * 100, pow10(sc)));
    assert((mc < 0) == (m < 0)) by (nonlinear_arith)
        requires
            c >= 1,
            mc == m * c,
    ;
    assert(hundredfold_rounded(mc, sc + k) == hundredfold_rounded(m, sc));
    if k == 0 {
        assert(c == 1);
        assert(mc == m) by (nonlinear_arith)
            requires
                c == 1,
                mc == m * c,
        ;
    } else {
        lemma_pow10_mono(1, k);
        assert(pow10(1) == 10) by {
            reveal_with_fuel(pow10, 2);
        }
        assert(abs_int(m) * 10 <= abs_int(mc)) by (nonlinear_arith)
            requires
                c >= 10,
                abs_int(mc) == abs_int(m) * c,
        ;
        if k >= 2 {
            lemma_pow10_mono(2, k);
            assert(pow10(2) == 100) by {
                reveal_with_fuel(pow10, 3);
            }
            assert(abs_int(m) * 100 <= abs_int(mc)) by (nonlinear_arith)
                requires
                    c >= 100,
                    abs_int(mc) == abs_int(m) * c,
            ;
            assert(!hundredfold_overflows(m, sc));
            assert(!hundredfold_overflows(mc, sc + k));
        } else {
            assert(c == 10);
            assert(abs_int(mc) * 10 == abs_int(m) * 100);
            if sc == 0 {
                assert(hundredfold_overflows(mc, sc + k) == hundredfold_overflows(m, sc));
            } else {
                assert(!hundredfold_overflows(mc, sc + k));
                assert(!hundredfold_overflows(m, sc));
            }
        }
    }
}

/// The text of an amount as `format_pennies` writes it, without the dollar sign.
pub open spec fn amount_text(pennies: int) -> Seq<char> {
    let a = abs_int(pennies);
    (if pennies < 0 { seq!['-'] } else { Seq::<char>::empty() })
        + decimal_digits(a / 100)
        + seq!['.', digit_char((a % 100) / 10), digit_char(a % 10)]
}

proof fn lemma_decimal_digits(n: nat, k: nat)
    requires
        n < pow10(k),
        k >= 1,
    ensures
        all_ascii_digits(decimal_digits(n)),
        1 <= decimal_digits(n).len() <= k,
        digits_value(decimal_digits(n)) == n,
    decreases n,
{
    assert((digit_char(n % 10) as int) == 48 + n % 10);
    if n >= 10 {
        assert(pow10(k) == 10 * pow10((k - 1) as nat));
        if k == 1 {
            assert(pow10(0) == 1);
        }
        assert(n / 10 < pow10((k - 1) as nat));
        lemma_decimal_digits(n / 10, (k - 1) as nat);
        let d = decimal_digits(n);
        assert(d.drop_last() =~= decimal_digits(n / 10));
        assert(d.last() == digit_char(n % 10));
        assert(digits_value(d) == digits_value(decimal_digits(n / 10)) * 10 + n % 10);
        assert(n / 10 * 10 + n % 10 == n);
    } else {
        assert(decimal_digits(n).drop_last() =~= Seq::<char>::empty());
        assert(digits_value(Seq::<char>::empty()) == 0);
        assert(n % 10 == n);
    }
}

proof fn lemma_digits_value_two_more(ds: Seq<char>, c1: char, c0: char)
    ensures
        digits_value(ds + seq![c1, c0]) == (digits_value(ds) * 10 + ((c1 as int) - 48) as nat) * 10
            + ((c0 as int) - 48) as nat,
{
    let s = ds + seq![c1, c0];
    assert(s.drop_last() =~= ds.push(c1));
    assert(s.last() == c0);
    assert(ds.push(c1).drop_last() =~= ds);
    assert(ds.push(c1).last() == c1);
    assert(digits_value(ds.push(c1)) == digits_value(ds) * 10 + ((c1 as int) - 48) as nat);
    assert(digits_value(s) == digits_value(ds.push(c1)) * 10 + ((c0 as int) - 48) as nat);
}

proof fn lemma_pow10_small()
    ensures
        pow10(2) == 100,
        pow10(17) == 100_000_000_000_000_000,
{
    reveal_with_fuel(pow10, 18);
}

/// The amount text of `p` is a short plain decimal with its point right after
/// the whole dollars, and it denotes `p` pennies at scale two.
proof fn lemma_amount_text_plain(p: int)
    requires
        fits_i64(p),
    ensures
        is_plain_decimal(amount_text(p), decimal_digits(abs_int(p) / 100).len() as int),
        plain_decimal_value(amount_text(p), decimal_digits(abs_int(p) / 100).len() as int) == (p, 2nat),
{
    let a = abs_int(p);
    let dollars = a / 100;
    let c1 = digit_char((a % 100) / 10);
    let c0 = digit_char(a % 10);
    lemma_pow10_small();
    lemma_decimal_digits(dollars, 17);
    let ds = decimal_digits(dollars);
    let k = ds.len() as int;
    let s = amount_text(p);
    let u = unsigned_part(s);
    let tail = ds + seq!['.', c1, c0];
    assert(u =~= tail) by {
        if p < 0 {
            assert(s =~= seq!['-'] + tail);
            assert(s.drop_first() =~= tail);
        } else {
            assert(s =~= tail);
            assert(is_ascii_digit(ds[0]));
        }
    }
    assert(u.take(k) =~= ds);
    assert(u.skip(k + 1) =~= seq![c1, c0]);
    assert(all_ascii_digits(seq![c1, c0]));
    assert(u.take(k) + u.skip(k + 1) =~= ds + seq![c1, c0]);
    lemma_digits_value_two_more(ds, c1, c0);
    assert(digits_value(ds + seq![c1, c0]) == a);
}

/// Parsing what `format_pennies` writes, without its dollar sign, gives back
/// the same pennies: formatting loses nothing.
#[verifier::rlimit(40)]
pub proof fn law_formatted_amount_parses_back(pennies: i64)
    ensures
        spec_format_pennies(pennies as int) == (if pennies < 0 { seq!['-'] } else { Seq::<char>::empty() })
            + seq!['$'] + amount_text(pennies as int).skip(if pennies < 0 { 1 } else { 0 }),
        is_plain_decimal(amount_text(pennies as int), decimal_digits(abs_int(pennies as int) / 100).len() as int),
        pennies_of_decimal(
            plain_decimal_value(amount_text(pennies as int), decimal_digits(abs_int(pennies as int) / 100).len() as int).0,
            plain_decimal_value(amount_text(pennies as int), decimal_digits(abs_int(pennies as int) / 100).len() as int).1,
        ) == Ok::<i64, CurrencyError>(pennies),
{
    let p = pennies as int;
    let a = abs_int(p);
    lemma_amount_text_plain(p);
    lemma_pow10_small();
    assert((a * 100) / 100 == a && (a * 100) % 100 == 0) by (nonlinear_arith);
    assert(hundredfold_rounded(p, 2) == p);
    let sign = if p < 0 { seq!['-'] } else { Seq::<char>::empty() };
    let rest = decimal_digits(a / 100) + seq!['.', digit_char((a % 100) / 10), digit_char(a % 10)];
    assert(amount_text(p) =~= sign + rest);
    assert(amount_text(p).skip(if p < 0 { 1 } else { 0 }) =~= rest);
    assert(spec_format_pennies(p) =~= sign + seq!['$'] + rest);
}

} // verus!

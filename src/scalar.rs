//! Dates and decimal amounts read from text, through chrono and rust_decimal.

use crate::money::{Amount, Date};
use chrono::Datelike;
use vstd::prelude::*;

verus! {

/// What `chrono::NaiveDate::parse_from_str(s, "%Y-%m-%d")` reads from `s`, as
/// year, month and day.
pub uninterp spec fn iso_date_parts(s: Seq<char>) -> Option<(i32, u32, u32)>;

/// What `rust_decimal::Decimal::from_str` reads from `s`, as mantissa and scale.
pub uninterp spec fn decimal_parts(s: Seq<char>) -> Option<(i128, u32)>;

/// The date that `s` spells in `YYYY-MM-DD` form.
pub open spec fn date_spec(s: Seq<char>) -> Option<Date> {
    match iso_date_parts(s) {
        Some(p) => Some(Date { year: p.0, month: p.1, day: p.2 }),
        None => None,
    }
}

/// The decimal amount that `s` spells.
pub open spec fn amount_spec(s: Seq<char>) -> Option<Amount> {
    match decimal_parts(s) {
        Some(p) => Some(Amount { mantissa: p.0, scale: p.1 }),
        None => None,
    }
}

/// Relies on `chrono::NaiveDate::parse_from_str` with the format `%Y-%m-%d`, and on
/// `Datelike`'s `year`, `month` (1 to 12) and `day` (1 to 31) of the date read.
#[verifier::external_body]
pub(crate) fn parse_date(s: &str) -> (r: Option<Date>)
    ensures
        r is Some <==> iso_date_parts(s@) is Some,
        r == date_spec(s@),
        r matches Some(d) ==> 1 <= d.month <= 12 && 1 <= d.day <= 31,
{
    let d = chrono::NaiveDate::parse_from_str(s, "%Y-%m-%d").ok()?;
    Some(Date { year: d.year(), month: d.month(), day: d.day() })
}

/// Relies on `rust_decimal::Decimal::from_str`, and on `mantissa` and `scale`
/// (at most 28) of the decimal read.
#[verifier::external_body]
pub(crate) fn parse_amount(s: &str) -> (r: Option<Amount>)
    ensures
        r is Some <==> decimal_parts(s@) is Some,
        r == amount_spec(s@),
        r matches Some(a) ==> a.scale <= 28,
{
    let d = <rust_decimal::Decimal as std::str::FromStr>::from_str(s).ok()?;
    Some(Amount { mantissa: d.mantissa(), scale: d.scale() })
}

/// What `rust_decimal::Decimal::checked_mul` gives for `a * b`; `None` on overflow
/// and where an operand is no decimal (a scale above 28, a mantissa above 96 bits).
pub uninterp spec fn decimal_product(a: Amount, b: Amount) -> Option<Amount>;

/// What `rust_decimal::Decimal::checked_div` gives for `a / b`; `None` on a zero
/// divisor, on overflow, and where an operand is no decimal.
pub uninterp spec fn decimal_quotient(a: Amount, b: Amount) -> Option<Amount>;

/// What `rust_decimal::Decimal::checked_add` gives for `a + b`; `None` on overflow
/// and where an operand is no decimal.
pub uninterp spec fn decimal_sum(a: Amount, b: Amount) -> Option<Amount>;

/// Relies on `rust_decimal::Decimal::checked_mul`, the operands made by
/// `Decimal::try_from_i128_with_scale`.
#[verifier::external_body]
pub(crate) fn mul_amounts(a: Amount, b: Amount) -> (r: Option<Amount>)
    ensures
        r == decimal_product(a, b),
{
    let x = rust_decimal::Decimal::try_from_i128_with_scale(a.mantissa, a.scale).ok()?;
    let y = rust_decimal::Decimal::try_from_i128_with_scale(b.mantissa, b.scale).ok()?;
    let p = x.checked_mul(y)?;
    Some(Amount { mantissa: p.mantissa(), scale: p.scale() })
}

/// Relies on `rust_decimal::Decimal::checked_div`, the operands made by
/// `Decimal::try_from_i128_with_scale`.
#[verifier::external_body]
pub(crate) fn div_amounts(a: Amount, b: Amount) -> (r: Option<Amount>)
    ensures
        r == decimal_quotient(a, b),
{
    let x = rust_decimal::Decimal::try_from_i128_with_scale(a.mantissa, a.scale).ok()?;
    let y = rust_decimal::Decimal::try_from_i128_with_scale(b.mantissa, b.scale).ok()?;
    let q = x.checked_div(y)?;
    Some(Amount { mantissa: q.mantissa(), scale: q.scale() })
}

/// Relies on `rust_decimal::Decimal::checked_add`, the operands made by
/// `Decimal::try_from_i128_with_scale`.
#[verifier::external_body]
pub(crate) fn add_amounts(a: Amount, b: Amount) -> (r: Option<Amount>)
    ensures
        r == decimal_sum(a, b),
{
    let x = rust_decimal::Decimal::try_from_i128_with_scale(a.mantissa, a.scale).ok()?;
    let y = rust_decimal::Decimal::try_from_i128_with_scale(b.mantissa, b.scale).ok()?;
    let s = x.checked_add(y)?;
    Some(Amount { mantissa: s.mantissa(), scale: s.scale() })
}

} // verus!

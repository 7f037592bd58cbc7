//! Currency codes, amounts, calendar dates and monetary values.

use crate::text::{to_upper_ascii, upper_spec};
use vstd::prelude::*;

verus! {

/// A currency code, held upper-cased. Any code is accepted: no membership
/// check against ISO 4217 is made.
#[derive(Debug, Clone)]
pub struct CurrencyCode(pub String);

impl View for CurrencyCode {
    type V = Seq<char>;

    open spec fn view(&self) -> Seq<char> {
        self.0@
    }
}

/// The code's view, where there is a code.
pub open spec fn currency_view(c: Option<CurrencyCode>) -> Option<Seq<char>> {
    match c {
        Some(c) => Some(c@),
        None => None,
    }
}

impl CurrencyCode {
    /// The code spelled by `s`, upper-cased.
    pub fn new(s: &str) -> (r: CurrencyCode)
        ensures
            r@ == upper_spec(s@),
    {
        CurrencyCode(to_upper_ascii(s))
    }

    /// The stored code.
    pub fn as_str(&self) -> (r: &str)
        ensures
            r@ == self@,
    {
        self.0.as_str()
    }
}

impl From<&str> for CurrencyCode {
    fn from(s: &str) -> CurrencyCode {
        CurrencyCode::new(s)
    }
}

impl vstd::std_specs::convert::FromSpecImpl<&str> for CurrencyCode {
    open spec fn obeys_from_spec() -> bool {
        false
    }

    open spec fn from_spec(v: &str) -> CurrencyCode {
        arbitrary()
    }
}

impl From<String> for CurrencyCode {
    fn from(s: String) -> CurrencyCode {
        CurrencyCode::new(s.as_str())
    }
}

impl vstd::std_specs::convert::FromSpecImpl<String> for CurrencyCode {
    open spec fn obeys_from_spec() -> bool {
        false
    }

    open spec fn from_spec(v: String) -> CurrencyCode {
        arbitrary()
    }
}

/// A decimal amount as written: `mantissa / 10^scale`, the scale being at most 28.
#[derive(Debug, Clone, Copy, PartialEq, Eq, Structural)]
pub struct Amount {
    pub mantissa: i128,
    pub scale: u32,
}

impl Amount {
    /// The amount `num / 10^scale`.
    pub fn new(num: i64, scale: u32) -> (r: Amount)
        requires
            scale <= 28,
        ensures
            r.mantissa == num as i128,
            r.scale == scale,
    {
        Amount { mantissa: num as i128, scale }
    }
}

/// A calendar date as year, month (1 to 12) and day of the month (1 to 31).
#[derive(Debug, Clone, Copy, PartialEq, Eq, Structural)]
pub struct Date {
    pub year: i32,
    pub month: u32,
    pub day: u32,
}

/// An amount with an optional currency and an optional date for exchange rates.
#[derive(Debug, Clone)]
pub struct Money {
    pub amount: Amount,
    /// Where absent, callers may fall back to the activity's default currency.
    pub currency: Option<CurrencyCode>,
    /// Date to take an exchange rate for; callers may fall back to the
    /// transaction's own date.
    pub value_date: Option<Date>,
}

pub struct MoneyView {
    pub amount: Amount,
    pub currency: Option<Seq<char>>,
    pub value_date: Option<Date>,
}

impl View for Money {
    type V = MoneyView;

    open spec fn view(&self) -> MoneyView {
        MoneyView {
            amount: self.amount,
            currency: currency_view(self.currency),
            value_date: self.value_date,
        }
    }
}

impl Money {
    /// An amount with neither currency nor value date.
    pub fn new(amount: Amount) -> (r: Money)
        ensures
            r.amount == amount,
            r.currency is None,
            r.value_date is None,
    {
        Money { amount, currency: None, value_date: None }
    }
}

} // verus!

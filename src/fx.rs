//! Currency conversion: a table of monthly rates against the US dollar, cross
//! rates from it, and conversion of money and activities to one currency.

use crate::activity::{Activity, ActivityView};
use crate::money::{currency_view, Amount, CurrencyCode, Date, Money, MoneyView};
use crate::scalar::{decimal_product, decimal_quotient, div_amounts, mul_amounts};
use crate::text::{is_named, upper_spec};
use crate::tx::{org_view, OrgRef, Transaction};
use vstd::prelude::*;

verus! {

/// Why an amount could not be converted.
#[derive(Debug, Clone)]
pub enum FxError {
    /// No rate for the currency in the month of the date.
    MissingRate(CurrencyCode, Date),
    /// The source currency is unknown.
    UnsupportedCurrency(CurrencyCode),
    /// The target currency is not in the table.
    UnsupportedTarget(CurrencyCode),
    /// No date to take a rate for.
    MissingDate,
    /// A rate or a converted amount overflows, or a rate is zero.
    Arithmetic,
}

/// A year and a month (1 to 12): the period of a rate.
#[derive(Debug, Clone, Copy, PartialEq, Eq, Structural, Hash)]
pub struct YearMonth {
    pub year: i32,
    pub month: u32,
}

impl YearMonth {
    /// The month that `date` falls in.
    pub fn from_date(date: Date) -> (r: YearMonth)
        ensures
            r.year == date.year,
            r.month == date.month,
    {
        YearMonth { year: date.year, month: date.month }
    }
}

/// Where a source of rates can be asked for the rate between two currencies.
pub trait FxProvider {
    /// The number of `target_currency` units one `source_currency` unit buys on `date`.
    fn get_rate(
        &self,
        source_currency: &CurrencyCode,
        target_currency: &CurrencyCode,
        date: Date,
    ) -> Result<Amount, FxError>;
}

/// One monthly rate: units of `currency` per US dollar.
pub struct RateEntry {
    pub currency: CurrencyCode,
    pub period: YearMonth,
    pub rate: Amount,
}

/// Monthly "national currency per US dollar" rates. A later entry for the same
/// currency and month replaces an earlier one.
pub struct FxTable {
    pub ncu_per_usd: Vec<RateEntry>,
}

/// The rate of the last entry of `e` for `currency` in `period`.
pub open spec fn rate_in(e: Seq<RateEntry>, currency: Seq<char>, period: YearMonth) -> Option<Amount>
    decreases e.len(),
{
    if e.len() == 0 {
        None
    } else if e.last().currency@ == currency && e.last().period == period {
        Some(e.last().rate)
    } else {
        rate_in(e.drop_last(), currency, period)
    }
}

/// `r` reports that `currency` has no rate for the month of `date`.
pub open spec fn is_missing_rate(r: Result<Amount, FxError>, currency: Seq<char>, date: Date) -> bool {
    match r {
        Err(FxError::MissingRate(c, d)) => c@ == currency && d == date,
        _ => false,
    }
}

/// Why no cross rate could be had.
pub enum RateFault {
    /// The source currency has no rate for the month.
    MissingSource,
    /// The target currency has no rate for the month.
    MissingTarget,
    /// The quotient overflows, or the source rate is zero.
    Arithmetic,
}

/// The rate between two currencies from their rates per US dollar: `to / from`;
/// one between a currency and itself.
pub open spec fn cross_rate_spec(
    e: Seq<RateEntry>,
    source: Seq<char>,
    target: Seq<char>,
    date: Date,
) -> Result<Amount, RateFault> {
    let ym = YearMonth { year: date.year, month: date.month };
    if source == target {
        Ok(Amount { mantissa: 1, scale: 0 })
    } else {
        match rate_in(e, source, ym) {
            None => Err(RateFault::MissingSource),
            Some(from) => match rate_in(e, target, ym) {
                None => Err(RateFault::MissingTarget),
                Some(to) => match decimal_quotient(to, from) {
                    None => Err(RateFault::Arithmetic),
                    Some(q) => Ok(q),
                },
            },
        }
    }
}

/// `r` is the rate `spec` gives, or the error it describes, naming the currency
/// without a rate and the date asked for.
pub open spec fn rate_result_is(
    r: Result<Amount, FxError>,
    spec: Result<Amount, RateFault>,
    source: Seq<char>,
    target: Seq<char>,
    date: Date,
) -> bool {
    match spec {
        Ok(q) => r == Ok::<Amount, FxError>(q),
        Err(RateFault::MissingSource) => is_missing_rate(r, source, date),
        Err(RateFault::MissingTarget) => is_missing_rate(r, target, date),
        Err(RateFault::Arithmetic) => r matches Err(FxError::Arithmetic),
    }
}

impl FxTable {
    /// A table with no rates.
    pub fn new() -> (r: FxTable)
        ensures
            r.ncu_per_usd@.len() == 0,
    {
        FxTable { ncu_per_usd: Vec::new() }
    }

    /// Sets the rate of `currency` in `period`.
    pub fn insert(&mut self, currency: CurrencyCode, period: YearMonth, rate: Amount)
        ensures
            forall|c: Seq<char>, p: YearMonth|
                #[trigger] rate_in(final(self).ncu_per_usd@, c, p) == if c == currency@ && p == period {
                    Some(rate)
                } else {
                    rate_in(old(self).ncu_per_usd@, c, p)
                },
    {
        self.ncu_per_usd.push(RateEntry { currency, period, rate });
        assert(final(self).ncu_per_usd@.drop_last() =~= old(self).ncu_per_usd@);
    }

    /// The rate of `code` in the month of `date`.
    fn monthly_usd_rate(&self, code: &CurrencyCode, date: Date) -> (r: Result<Amount, FxError>)
        ensures
            match rate_in(self.ncu_per_usd@, code@, YearMonth { year: date.year, month: date.month }) {
                Some(a) => r == Ok::<Amount, FxError>(a),
                None => is_missing_rate(r, code@, date),
            },
    {
        let ym = YearMonth::from_date(date);
        assert(ym == YearMonth { year: date.year, month: date.month });
        let ghost e = self.ncu_per_usd@;
        let mut i: usize = self.ncu_per_usd.len();
        assert(e.take(e.len() as int) =~= e);
        while i > 0
            invariant
                i <= e.len(),
                e == self.ncu_per_usd@,
                ym == (YearMonth { year: date.year, month: date.month }),
                rate_in(e, code@, ym) == rate_in(e.take(i as int), code@, ym),
            decreases i,
        {
            assert(e.take(i as int).drop_last() =~= e.take(i - 1));
            assert(e.take(i as int).last() == e[i - 1]);
            let en = &self.ncu_per_usd[i - 1];
            if is_named(&en.currency.0, code.as_str()) && en.period == ym {
                assert(rate_in(e.take(i as int), code@, ym) == Some(en.rate));
                return Ok(en.rate);
            }
            i = i - 1;
        }
        assert(e.take(0) =~= Seq::<RateEntry>::empty());
        assert(rate_in(e, code@, ym) is None);
        let c = CurrencyCode(code.0.clone());
        assert(c@ == code@);
        Err(FxError::MissingRate(c, date))
    }

    /// The cross rate from `source_currency` to `target_currency` on `date`.
    pub fn cross_rate(
        &self,
        source_currency: &CurrencyCode,
        target_currency: &CurrencyCode,
        date: Date,
    ) -> (r: Result<Amount, FxError>)
        ensures
            rate_result_is(
                r,
                cross_rate_spec(self.ncu_per_usd@, source_currency@, target_currency@, date),
                source_currency@,
                target_currency@,
                date,
            ),
    {
        if source_currency.0.eq(&target_currency.0) {
            return Ok(Amount { mantissa: 1, scale: 0 });
        }
        let r_from = match self.monthly_usd_rate(source_currency, date) {
            Ok(a) => a,
            Err(e) => {
                return Err(e);
            },
        };
        let r_to = match self.monthly_usd_rate(target_currency, date) {
            Ok(a) => a,
            Err(e) => {
                return Err(e);
            },
        };
        match div_amounts(r_to, r_from) {
            None => Err(FxError::Arithmetic),
            Some(q) => Ok(q),
        }
    }
}

impl FxProvider for FxTable {
    fn get_rate(
        &self,
        source_currency: &CurrencyCode,
        target_currency: &CurrencyCode,
        date: Date,
    ) -> Result<Amount, FxError> {
        self.cross_rate(source_currency, target_currency, date)
    }
}

/// The currency a value is in: its own, else the activity's default.
pub open spec fn source_currency_spec(own: Option<Seq<char>>, default: Option<Seq<char>>) -> Option<
    Seq<char>,
> {
    match own {
        Some(c) => Some(c),
        None => default,
    }
}

fn copy_code(c: &CurrencyCode) -> (r: CurrencyCode)
    ensures
        r@ == c@,
{
    CurrencyCode(c.0.clone())
}

fn copy_text_opt(s: &Option<String>) -> (r: Option<String>)
    ensures
        crate::tx::text_view(r) == crate::tx::text_view(*s),
{
    match s {
        Some(t) => Some(t.clone()),
        None => None,
    }
}

fn copy_org(o: &Option<OrgRef>) -> (r: Option<OrgRef>)
    ensures
        org_view(r) == org_view(*o),
{
    match o {
        Some(x) => Some(OrgRef { ref_id: copy_text_opt(&x.ref_id), name: copy_text_opt(&x.name) }),
        None => None,
    }
}

fn copy_code_opt(c: &Option<CurrencyCode>) -> (r: Option<CurrencyCode>)
    ensures
        currency_view(r) == currency_view(*c),
{
    match c {
        Some(x) => Some(copy_code(x)),
        None => None,
    }
}

/// The currency `money` is in: its own, else `activity_default`.
pub fn resolve_source_currency(money: &Money, activity_default: Option<&CurrencyCode>) -> (r: Option<
    CurrencyCode,
>)
    ensures
        currency_view(r) == source_currency_spec(
            money@.currency,
            match activity_default {
                Some(d) => Some(d@),
                None => None,
            },
        ),
{
    match &money.currency {
        Some(c) => Some(copy_code(c)),
        None => match activity_default {
            Some(d) => Some(copy_code(d)),
            None => None,
        },
    }
}

/// `money` at `rate` in `target`: the amount multiplied by the rate, the value
/// date kept.
pub fn apply_rate(money: &Money, target: &CurrencyCode, rate: Amount) -> (r: Result<Money, FxError>)
    ensures
        match decimal_product(money.amount, rate) {
            Some(p) => r matches Ok(m) && m@ == (MoneyView {
                amount: p,
                currency: Some(target@),
                value_date: money.value_date,
            }),
            None => r matches Err(FxError::Arithmetic),
        },
{
    match mul_amounts(money.amount, rate) {
        None => Err(FxError::Arithmetic),
        Some(p) => Ok(Money { amount: p, currency: Some(copy_code(target)), value_date: money.value_date }),
    }
}

/// `m` is `money` converted to `target` at some rate.
pub open spec fn converted_at_some_rate(m: Money, money: Money, target: Seq<char>) -> bool {
    exists|rate: Amount|
        #[trigger] decimal_product(money.amount, rate) == Some(m.amount) && m@.currency == Some(target)
            && m.value_date == money.value_date
}

/// Converts `money` to `target` at the rate `fx` gives for its currency (its own,
/// else `activity_default`) on `value_date`.
pub fn convert_money<P: FxProvider>(
    money: &Money,
    activity_default: Option<&CurrencyCode>,
    target: &CurrencyCode,
    value_date: Option<Date>,
    fx: &P,
) -> (r: Result<Money, FxError>)
    ensures
        money.currency is None && activity_default is None ==> (r matches Err(
            FxError::UnsupportedCurrency(c),
        ) && c@ == upper_spec("UNKNOWN"@)),
        (money.currency is Some || activity_default is Some) && value_date is None ==> r matches Err(
            FxError::MissingDate,
        ),
        r matches Ok(m) ==> converted_at_some_rate(m, *money, target@),
{
    let src = match resolve_source_currency(money, activity_default) {
        Some(c) => c,
        None => {
            return Err(FxError::UnsupportedCurrency(CurrencyCode::new("UNKNOWN")));
        },
    };
    let date = match value_date {
        Some(d) => d,
        None => {
            return Err(FxError::MissingDate);
        },
    };
    let rate = match fx.get_rate(&src, target, date) {
        Ok(q) => q,
        Err(e) => {
            return Err(e);
        },
    };
    let r = apply_rate(money, target, rate);
    assert(r matches Ok(m) ==> decimal_product(money.amount, rate) == Some(m.amount));
    r
}

/// The date to take a transaction's rate for: its value date, else its own date.
pub fn rate_date(tx: &Transaction) -> (r: Date)
    ensures
        r == match tx.value.value_date {
            Some(d) => d,
            None => tx.date,
        },
{
    match tx.value.value_date {
        Some(d) => d,
        None => tx.date,
    }
}

/// `out` is `tx` with its value converted to `target` at some rate.
pub open spec fn tx_converted(out: Transaction, tx: Transaction, target: Seq<char>) -> bool {
    &&& out.tx_type == tx.tx_type
    &&& out.date == tx.date
    &&& org_view(out.provider_org) == org_view(tx.provider_org)
    &&& org_view(out.receiver_org) == org_view(tx.receiver_org)
    &&& currency_view(out.currency_hint) == currency_view(tx.currency_hint)
    &&& converted_at_some_rate(out.value, tx.value, target)
}

/// A copy of `activity` with every value converted to `target`, each at the rate
/// for its value date (else its transaction's date), and `target` as default
/// currency.
pub fn convert_activity<P: FxProvider>(activity: &Activity, target: &CurrencyCode, fx: &P) -> (r: Result<
    Activity,
    FxError,
>)
    ensures
        activity.transactions@.len() == 0 ==> (r matches Ok(out) && out@ == (ActivityView {
            default_currency: Some(target@),
            ..activity@
        })),
        activity.default_currency is None && activity.transactions@.len() > 0
            && activity.transactions@[0].value.currency is None ==> (r matches Err(
            FxError::UnsupportedCurrency(c),
        ) && c@ == upper_spec("UNKNOWN"@)),
        activity.default_currency is None && (exists|i: int|
            0 <= i < activity.transactions@.len()
                && (#[trigger] activity.transactions@[i]).value.currency is None) ==> r is Err,
        r matches Ok(out) ==> {
            &&& out.iati_identifier@ == activity.iati_identifier@
            &&& out@.default_currency == Some(target@)
            &&& org_view(out.reporting_org) == org_view(activity.reporting_org)
            &&& out.activity_start == activity.activity_start
            &&& out.activity_end == activity.activity_end
            &&& out.transactions@.len() == activity.transactions@.len()
            &&& forall|i: int|
                0 <= i < out.transactions@.len() ==> tx_converted(
                    #[trigger] out.transactions@[i],
                    activity.transactions@[i],
                    target@,
                )
        },
{
    let mut txs: Vec<Transaction> = Vec::new();
    let mut i: usize = 0;
    while i < activity.transactions.len()
        invariant
            0 <= i <= activity.transactions@.len(),
            txs@.len() == i,
            forall|j: int|
                0 <= j < i ==> tx_converted(#[trigger] txs@[j], activity.transactions@[j], target@),
            activity.default_currency is None ==> forall|j: int|
                0 <= j < i ==> (#[trigger] activity.transactions@[j]).value.currency is Some,
        decreases activity.transactions.len() - i,
    {
        let tx = &activity.transactions[i];
        let date = rate_date(tx);
        let value = match convert_money(
            &tx.value,
            activity.default_currency.as_ref(),
            target,
            Some(date),
            fx,
        ) {
            Ok(m) => m,
            Err(e) => {
                return Err(e);
            },
        };
        txs.push(
            Transaction {
                tx_type: tx.tx_type,
                date: tx.date,
                value,
                provider_org: copy_org(&tx.provider_org),
                receiver_org: copy_org(&tx.receiver_org),
                currency_hint: copy_code_opt(&tx.currency_hint),
            },
        );
        i = i + 1;
    }
    let out = Activity {
        iati_identifier: activity.iati_identifier.clone(),
        default_currency: Some(copy_code(target)),
        transactions: txs,
        reporting_org: copy_org(&activity.reporting_org),
        activity_start: activity.activity_start,
        activity_end: activity.activity_end,
    };
    if activity.transactions.len() == 0 {
        assert(out@.transactions =~= activity@.transactions);
    }
    Ok(out)
}

} // verus!

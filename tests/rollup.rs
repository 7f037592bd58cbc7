use iati_xml::{
    aggregate_by_type, aggregate_by_year_and_type, Activity, Amount, ByTypeAndCurrency,
    CurrencyCode, Date, FxCurrency, Money, Transaction, TransformError, TxType,
};
use rust_decimal::prelude::ToPrimitive;
use rust_decimal::Decimal;

fn mk_money(amount_cents: i64, currency: Option<&str>) -> Money {
    Money {
        amount: Amount::new(amount_cents, 2),
        currency: currency.map(CurrencyCode::from),
        value_date: None,
    }
}

fn dec(a: Amount) -> Decimal {
    Decimal::from_i128_with_scale(a.mantissa, a.scale)
}

#[test]
fn sum_by_type_native_currency() {
    let mut a = Activity::new("A1");
    a.default_currency = Some(CurrencyCode::from("USD"));

    a.transactions.push(Transaction::new(
        TxType::Disbursement,
        Date { year: 2023, month: 1, day: 10 },
        mk_money(1000, None), // 10.00 USD (falls back to activity default)
    ));
    a.transactions.push(Transaction::new(
        TxType::Disbursement,
        Date { year: 2023, month: 2, day: 10 },
        mk_money(500, Some("EUR")), // 5.00 EUR
    ));
    a.transactions.push(Transaction::new(
        TxType::OutgoingCommitment,
        Date { year: 2023, month: 2, day: 10 },
        mk_money(700, Some("USD")), // 7.00 USD
    ));

    let sums = aggregate_by_type(&[a], FxCurrency::Native).unwrap();
    assert_eq!(
        sums.total_for(TxType::Disbursement, &CurrencyCode::from("USD")).unwrap(),
        Amount::new(1000, 2)
    );
    assert_eq!(
        sums.total_for(TxType::Disbursement, &CurrencyCode::from("EUR")).unwrap(),
        Amount::new(500, 2)
    );
    assert_eq!(
        sums.total_for(TxType::OutgoingCommitment, &CurrencyCode::from("USD")).unwrap(),
        Amount::new(700, 2)
    );
}

#[test]
fn sum_by_year_and_type_fixed_target() {
    let mut a = Activity::new("A1");
    a.default_currency = Some(CurrencyCode::from("USD"));

    a.transactions.push(Transaction::new(
        TxType::Disbursement,
        Date { year: 2023, month: 1, day: 10 },
        mk_money(1000, None), // 10.00 USD
    ));
    a.transactions.push(Transaction::new(
        TxType::Disbursement,
        Date { year: 2024, month: 3, day: 1 },
        mk_money(500, Some("EUR")), // 5.00 EUR -> Fixed target GBP (1:1)
    ));

    let sums = aggregate_by_year_and_type(&[a], FxCurrency::Fixed { target: CurrencyCode::from("GBP") }).unwrap();
    // 2023: 10.00 -> GBP
    assert_eq!(
        dec(sums.total_for(2023, TxType::Disbursement, &CurrencyCode::from("GBP")).unwrap()).to_f64().unwrap(),
        10.00_f64
    );
    // 2024: 5.00 -> GBP
    assert_eq!(
        dec(sums.total_for(2024, TxType::Disbursement, &CurrencyCode::from("GBP")).unwrap()).to_f64().unwrap(),
        5.00_f64
    );
}

#[test]
fn sums_add_up_and_unresolved_are_skipped() {
    let mut a = Activity::new("A");
    a.transactions.push(Transaction::new(TxType::Expenditure, Date { year: 2022, month: 1, day: 1 }, mk_money(150, Some("usd"))));
    a.transactions.push(Transaction::new(TxType::Expenditure, Date { year: 2022, month: 6, day: 1 }, mk_money(275, Some("USD"))));
    a.transactions.push(Transaction::new(TxType::Expenditure, Date { year: 2022, month: 6, day: 1 }, mk_money(999, None)));
    let mut b = Activity::new("B");
    b.default_currency = Some(CurrencyCode::from("USD"));
    b.transactions.push(Transaction::new(TxType::Expenditure, Date { year: 2023, month: 1, day: 1 }, mk_money(5, None)));
    let sums = aggregate_by_type(&[a.clone(), b.clone()], FxCurrency::Native).unwrap();
    assert_eq!(dec(sums.total_for(TxType::Expenditure, &CurrencyCode::from("USD")).unwrap()), Decimal::new(430, 2));
    assert_eq!(sums.sums.len(), 1);
    assert_eq!(sums.total_for(TxType::Disbursement, &CurrencyCode::from("USD")), None);
    let by_year = aggregate_by_year_and_type(&[a, b], FxCurrency::Native).unwrap();
    assert_eq!(dec(by_year.total_for(2022, TxType::Expenditure, &CurrencyCode::from("USD")).unwrap()), Decimal::new(425, 2));
    assert_eq!(dec(by_year.total_for(2023, TxType::Expenditure, &CurrencyCode::from("USD")).unwrap()), Decimal::new(5, 2));
    assert_eq!(by_year.sums.len(), 2);
}

#[test]
fn overflowing_sum_fails() {
    let mut t = ByTypeAndCurrency::new();
    let big = Amount { mantissa: (1i128 << 96) - 1, scale: 0 };
    let usd = CurrencyCode::from("USD");
    assert!(t.add(TxType::Disbursement, usd.clone(), big).is_ok());
    assert_eq!(t.add(TxType::Disbursement, usd.clone(), big), Err(TransformError::Overflow));
    assert_eq!(t.total_for(TxType::Disbursement, &usd), Some(big));
    assert!(aggregate_by_type(&[], FxCurrency::Native).unwrap().sums.is_empty());
}

use iati_xml::{
    convert_activity, convert_money, resolve_source_currency, Activity, Amount, CurrencyCode,
    Date, FxError, FxProvider, FxTable, Money, Transaction, TxType, YearMonth,
};
use rust_decimal::prelude::FromPrimitive;
use rust_decimal::Decimal;

fn dec(a: Amount) -> Decimal {
    Decimal::from_i128_with_scale(a.mantissa, a.scale)
}

#[test]
fn test_cross_rate() {
    let mut table = FxTable::new();

    // For March 2024: 1 USD = 7.0 DKK, 1 USD = 0.9 EUR
    let ym = YearMonth { year: 2024, month: 3 };

    table.insert(CurrencyCode::from("DKK"), ym, Amount::new(70, 1));
    table.insert(CurrencyCode::from("EUR"), ym, Amount::new(9, 1));

    let date = Date { year: 2024, month: 3, day: 15 };

    let rate = table
        .get_rate(&CurrencyCode::from("DKK"), &CurrencyCode::from("EUR"), date)
        .unwrap();
    let rate = dec(rate);

    // expected rate: 0.9 / 7.0 = 0.12857142857
    let expected_rate = Decimal::from_f64(0.9 / 7.0).unwrap();

    assert!((rate - expected_rate).abs() < Decimal::new(1, 6));
    assert_eq!(rate.round_dp(10), expected_rate.round_dp(10));
}

fn table() -> FxTable {
    let mut t = FxTable::new();
    let ym = YearMonth { year: 2023, month: 5 };
    t.insert(CurrencyCode::from("EUR"), ym, Amount::new(9, 1));
    t.insert(CurrencyCode::from("GBP"), ym, Amount::new(8, 1));
    t.insert(CurrencyCode::from("USD"), ym, Amount::new(1, 0));
    t
}

#[test]
fn same_currency_rate_is_one_without_lookup() {
    let t = FxTable::new();
    let r = t.get_rate(&CurrencyCode::from("xyz"), &CurrencyCode::from("XYZ"), Date { year: 1999, month: 1, day: 1 });
    assert_eq!(r.unwrap(), Amount { mantissa: 1, scale: 0 });
}

#[test]
fn missing_rate_and_zero_rate() {
    let mut t = table();
    let may = Date { year: 2023, month: 5, day: 3 };
    match t.get_rate(&CurrencyCode::from("EUR"), &CurrencyCode::from("JPY"), may) {
        Err(FxError::MissingRate(c, d)) => {
            assert_eq!(c.0, "JPY");
            assert_eq!(d, may);
        }
        other => panic!("unexpected {:?}", other),
    }
    let june = Date { year: 2023, month: 6, day: 1 };
    assert!(matches!(t.get_rate(&CurrencyCode::from("EUR"), &CurrencyCode::from("GBP"), june), Err(FxError::MissingRate(_, _))));
    t.insert(CurrencyCode::from("EUR"), YearMonth { year: 2023, month: 5 }, Amount::new(0, 0));
    assert!(matches!(t.get_rate(&CurrencyCode::from("EUR"), &CurrencyCode::from("GBP"), may), Err(FxError::Arithmetic)));
}

#[test]
fn later_rate_replaces_earlier() {
    let mut t = table();
    t.insert(CurrencyCode::from("GBP"), YearMonth { year: 2023, month: 5 }, Amount::new(18, 1));
    let r = t.get_rate(&CurrencyCode::from("EUR"), &CurrencyCode::from("GBP"), Date { year: 2023, month: 5, day: 9 }).unwrap();
    assert_eq!(dec(r), Decimal::new(2, 0));
}

#[test]
fn resolve_prefers_own_currency() {
    let usd = CurrencyCode::from("USD");
    let own = Money { amount: Amount::new(1, 0), currency: Some(CurrencyCode::from("eur")), value_date: None };
    assert_eq!(resolve_source_currency(&own, Some(&usd)).unwrap().0, "EUR");
    let bare = Money::new(Amount::new(1, 0));
    assert_eq!(resolve_source_currency(&bare, Some(&usd)).unwrap().0, "USD");
    assert!(resolve_source_currency(&bare, None).is_none());
}

#[test]
fn convert_money_cases() {
    let t = table();
    let gbp = CurrencyCode::from("GBP");
    let may = Date { year: 2023, month: 5, day: 2 };
    let m = Money { amount: Amount::new(900, 2), currency: Some(CurrencyCode::from("EUR")), value_date: Some(may) };
    let out = convert_money(&m, None, &gbp, Some(may), &t).unwrap();
    assert_eq!(dec(out.amount), Decimal::new(8, 0));
    assert_eq!(out.currency.unwrap().0, "GBP");
    assert_eq!(out.value_date, Some(may));

    let bare = Money::new(Amount::new(1, 0));
    match convert_money(&bare, None, &gbp, Some(may), &t) {
        Err(FxError::UnsupportedCurrency(c)) => assert_eq!(c.0, "UNKNOWN"),
        other => panic!("unexpected {:?}", other),
    }
    assert!(matches!(convert_money(&m, None, &gbp, None, &t), Err(FxError::MissingDate)));
}

#[test]
fn convert_activity_uses_value_date_then_tx_date() {
    let t = table();
    let mut a = Activity::new("A1");
    a.default_currency = Some(CurrencyCode::from("EUR"));
    let may = Date { year: 2023, month: 5, day: 10 };
    a.transactions.push(Transaction::new(TxType::Disbursement, may, Money::new(Amount::new(18, 0))));
    let other = Money { amount: Amount::new(1, 0), currency: Some(CurrencyCode::from("USD")), value_date: Some(may) };
    a.transactions.push(Transaction::new(TxType::Expenditure, Date { year: 2020, month: 1, day: 1 }, other));
    let out = convert_activity(&a, &CurrencyCode::from("GBP"), &t).unwrap();
    assert_eq!(out.iati_identifier, "A1");
    assert_eq!(out.default_currency.as_ref().unwrap().0, "GBP");
    assert_eq!(dec(out.transactions[0].value.amount), Decimal::new(16, 0));
    assert_eq!(dec(out.transactions[1].value.amount), Decimal::new(8, 1));
    assert_eq!(out.transactions[1].date, Date { year: 2020, month: 1, day: 1 });
    assert_eq!(out.transactions[1].tx_type, TxType::Expenditure);

    let mut b = Activity::new("B");
    b.transactions.push(Transaction::new(TxType::Disbursement, may, Money::new(Amount::new(1, 0))));
    assert!(matches!(convert_activity(&b, &CurrencyCode::from("GBP"), &t), Err(FxError::UnsupportedCurrency(_))));
}

#[test]
fn convert_activity_without_transactions_succeeds() {
    let t = FxTable::new();
    let a = Activity::new("EMPTY");
    let out = convert_activity(&a, &CurrencyCode::from("chf"), &t).unwrap();
    assert_eq!(out.iati_identifier, "EMPTY");
    assert_eq!(out.default_currency.unwrap().0, "CHF");
    assert!(out.transactions.is_empty());
}

#[test]
fn rate_date_prefers_value_date() {
    let d1 = Date { year: 2023, month: 1, day: 1 };
    let d2 = Date { year: 2024, month: 2, day: 2 };
    let mut tx = Transaction::new(TxType::Disbursement, d1, Money::new(Amount::new(1, 0)));
    assert_eq!(iati_xml::fx::rate_date(&tx), d1);
    tx.value.value_date = Some(d2);
    assert_eq!(iati_xml::fx::rate_date(&tx), d2);
}

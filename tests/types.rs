use iati_xml::{Amount, CurrencyCode, Date, Money, OrgRef, Transaction, TxType};

#[test]
fn tx_type_roundtrip() {
    assert_eq!(TxType::from(1).code(), 1);
    assert_eq!(TxType::from(13).code(), 13);
    assert!(matches!(TxType::from(99), TxType::Unknown(99)));
    assert_eq!("3".parse::<TxType>().unwrap().code(), 3);
}

#[test]
fn money_uppercases_currency() {
    let m = Money {
        amount: Amount::new(1000, 2),
        currency: Some(CurrencyCode::from("usd")),
        value_date: None,
    };
    assert_eq!(m.currency.unwrap().0, "USD");
}

#[test]
fn transaction_new_and_builders() {
    let date = Date { year: 2023, month: 5, day: 1 };
    let money = Money::new(Amount::new(5000, 2));

    let tx = Transaction::new(TxType::Disbursement, date, money.clone())
        .with_provider(OrgRef {
            ref_id: Some("AAA-111".into()),
            name: Some("Donor Org".into()),
        })
        .with_receiver(OrgRef {
            ref_id: Some("BBB-222".into()),
            name: None,
        })
        .with_currency_hint(CurrencyCode::from("EUR"));

    assert_eq!(tx.tx_type, TxType::Disbursement);
    assert_eq!(tx.date, date);
    assert_eq!(tx.value.amount, money.amount);
    assert_eq!(
        tx.provider_org.as_ref().unwrap().ref_id.as_deref(),
        Some("AAA-111")
    );
    assert_eq!(
        tx.receiver_org.as_ref().unwrap().ref_id.as_deref(),
        Some("BBB-222")
    );
    assert_eq!(tx.currency_hint.as_ref().unwrap().0, "EUR");
}

#[test]
fn currency_normalization_is_idempotent() {
    for s in ["usd", "USD", "Usd"] {
        let c = CurrencyCode::from(s);
        assert_eq!(c.0, "USD");
        assert_eq!(CurrencyCode::new(c.as_str()).0, "USD");
    }
    assert_eq!(CurrencyCode::from(String::from("eur")).as_str(), "EUR");
    // non-ASCII letters are left alone, unknown codes are kept
    assert_eq!(CurrencyCode::new("xé1").0, "Xé1");
}

#[test]
fn unknown_code_round_trips() {
    let t = TxType::from(42);
    assert_eq!(t, TxType::Unknown(42));
    assert_eq!(t.code(), 42);
    assert_eq!(t.to_text(), "42");
    assert_eq!(TxType::from_text(&t.to_text()), Some(t));
    assert_eq!(t.to_text().parse::<TxType>(), Ok(t));
}

#[test]
fn every_listed_code_round_trips() {
    for c in 0u16..=20 {
        let t = TxType::from_code(c);
        assert_eq!(t.code(), c);
        assert_eq!(TxType::from_text(&t.to_text()), Some(t));
    }
    assert_eq!(TxType::from_code(3), TxType::Disbursement);
    assert_eq!(TxType::from_code(65535), TxType::Unknown(65535));
}

#[test]
fn code_text_is_trimmed_and_checked() {
    assert_eq!(TxType::from_text("  4 \n"), Some(TxType::Expenditure));
    assert_eq!(TxType::from_text("+7"), Some(TxType::Reimbursement));
    assert_eq!(TxType::from_text(""), None);
    assert_eq!(TxType::from_text("-1"), None);
    assert_eq!(TxType::from_text("65536"), None);
    assert_eq!(TxType::from_text("3a"), None);
    assert!("x".parse::<TxType>().is_err());
}

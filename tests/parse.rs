use iati_xml::parser::{parse_activity, ActivityParser, Field, ParseError};
use iati_xml::token::{tokenize, Token};
use iati_xml::segment::parse_activities;
use iati_xml::token::XmlFault;
use iati_xml::{Amount, Date, TxType};

#[test]
fn parse_minimal_activity_with_one_tx() {
    let xml = r#"
        <iati-activity default-currency="USD">
            <iati-identifier>IATI-XYZ-12345</iati-identifier>
            <transaction>
                <transaction-type code="3"/>
                <transaction-date iso-date="2023-05-01"/>
                <value currency="EUR" value-date="2023-05-02">50.00</value>
            </transaction>
        </iati-activity>
        "#;

    let act = parse_activity(xml).expect("parsed");
    assert_eq!(act.iati_identifier, "IATI-XYZ-12345");
    assert_eq!(act.default_currency.as_ref().unwrap().0, "USD");
    assert_eq!(act.transactions.len(), 1);

    let tx = &act.transactions[0];
    assert!(matches!(tx.tx_type, TxType::Disbursement));
    assert_eq!(tx.date, Date { year: 2023, month: 5, day: 1 });
    assert_eq!(tx.value.amount, Amount::new(5000, 2));
    assert_eq!(tx.value.currency.as_ref().unwrap().0, "EUR");
    assert_eq!(tx.value.value_date.unwrap(), Date { year: 2023, month: 5, day: 2 });
}

#[test]
fn parse_two_activities_from_wrapper() {
    let xml = r#"
        <iati-activities version="2.03">
            <iati-activity default-currency="USD">
                <iati-identifier>ACT-1</iati-identifier>
                <transaction>
                    <transaction-type code="3"/>
                    <transaction-date iso-date="2023-01-01"/>
                    <value currency="USD" value-date="2023-01-01">10.00</value>
                </transaction>
            </iati-activity>
            <iati-activity default-currency="EUR">
                <iati-identifier>ACT-2</iati-identifier>
                <transaction>
                    <transaction-type code="4"/>
                    <transaction-date iso-date="2023-02-02"/>
                    <value currency="EUR" value-date="2023-02-03">20.00</value>
                </transaction>
            </iati-activity>
        </iati-activities>
        "#;

    let acts = parse_activities(xml).expect("parsed doc");
    assert_eq!(acts.len(), 2);
    assert_eq!(acts[0].iati_identifier, "ACT-1");
    assert_eq!(acts[1].iati_identifier, "ACT-2");
    assert_eq!(acts[0].default_currency.as_ref().unwrap().0, "USD");
    assert_eq!(acts[1].default_currency.as_ref().unwrap().0, "EUR");
    assert_eq!(acts[1].transactions[0].tx_type, TxType::Expenditure);
    assert_eq!(acts[1].transactions[0].value.amount, Amount::new(2000, 2));
}

#[test]
fn empty_value_element_errors() {
    let xml = r#"
        <iati-activity>
            <iati-identifier>ACT-EMPTY</iati-identifier>
            <transaction>
                <transaction-type code="3"/>
                <transaction-date iso-date="2023-05-01"/>
                <value currency="USD" value-date="2023-05-01"/>
            </transaction>
        </iati-activity>
        "#;

    let err = parse_activity(xml).unwrap_err();
    assert!(matches!(err, ParseError::MissingField(Field::Value)));
    assert_eq!(Field::Value.name(), "value");
}

fn one_tx(tx: &str) -> String {
    format!(
        "<iati-activity><iati-identifier>A</iati-identifier><transaction>{}</transaction></iati-activity>",
        tx
    )
}

#[test]
fn scenario_single_fragment() {
    let xml = r#"<iati-activity default-currency="USD"><iati-identifier>IATI-XYZ-12345</iati-identifier><transaction><transaction-type code="3"/><transaction-date iso-date="2023-05-01"/><value currency="EUR" value-date="2023-05-02">50.00</value></transaction></iati-activity>"#;
    let act = parse_activity(xml).unwrap();
    assert_eq!(act.iati_identifier, "IATI-XYZ-12345");
    assert_eq!(act.default_currency.unwrap().0, "USD");
    assert_eq!(act.transactions.len(), 1);
    let tx = &act.transactions[0];
    assert_eq!(tx.tx_type, TxType::Disbursement);
    assert_eq!(tx.tx_type.code(), 3);
    assert_eq!(tx.date, Date { year: 2023, month: 5, day: 1 });
    assert_eq!(tx.value.amount, Amount { mantissa: 5000, scale: 2 });
    assert_eq!(tx.value.currency.as_ref().unwrap().0, "EUR");
    assert_eq!(tx.value.value_date, Some(Date { year: 2023, month: 5, day: 2 }));
    assert!(tx.provider_org.is_none() && tx.receiver_org.is_none() && tx.currency_hint.is_none());
}

#[test]
fn lower_case_currencies_are_upper_cased() {
    let xml = r#"<iati-activity default-currency="usd"><iati-identifier> ID-9 </iati-identifier><transaction><transaction-type code="1"/><transaction-date iso-date="2020-12-31"/><value currency="eUr"> -7.5 </value></transaction></iati-activity>"#;
    let act = parse_activity(xml).unwrap();
    assert_eq!(act.iati_identifier, "ID-9");
    assert_eq!(act.default_currency.unwrap().0, "USD");
    let tx = &act.transactions[0];
    assert_eq!(tx.value.currency.as_ref().unwrap().0, "EUR");
    assert_eq!(tx.value.amount, Amount { mantissa: -75, scale: 1 });
    assert_eq!(tx.value.value_date, None);
    assert_eq!(tx.tx_type, TxType::IncomingFunds);
}

#[test]
fn segmentation_keeps_count_and_order() {
    let xml = r#"<?xml version="1.0"?>
        <iati-activities>
          <!-- first -->
          <iati-activity default-currency="USD"><iati-identifier>ACT-1</iati-identifier></iati-activity>
          <!-- second --> <?pi x?>
          <iati-activity default-currency="gbp"><iati-identifier>ACT-2</iati-identifier></iati-activity>
          <iati-activity><iati-identifier>ACT-3</iati-identifier><other><deep/></other></iati-activity>
        </iati-activities>"#;
    let acts = parse_activities(xml).unwrap();
    let ids: Vec<&str> = acts.iter().map(|a| a.iati_identifier.as_str()).collect();
    assert_eq!(ids, vec!["ACT-1", "ACT-2", "ACT-3"]);
    assert_eq!(acts[0].default_currency.as_ref().unwrap().0, "USD");
    assert_eq!(acts[1].default_currency.as_ref().unwrap().0, "GBP");
    assert!(acts[2].default_currency.is_none());
}

#[test]
fn empty_document_has_no_activities() {
    assert_eq!(parse_activities("<iati-activities/>").unwrap().len(), 0);
    assert_eq!(parse_activities("").unwrap().len(), 0);
}

#[test]
fn bare_activity_lacks_identifier() {
    let err = parse_activity(r#"<iati-activity default-currency="USD"/>"#).unwrap_err();
    assert_eq!(err, ParseError::MissingField(Field::Identifier));
    let err = parse_activities(r#"<iati-activities><iati-activity/></iati-activities>"#).unwrap_err();
    assert_eq!(err, ParseError::MissingField(Field::Identifier));
    assert_eq!(Field::Identifier.name(), "iati-identifier");
}

#[test]
fn document_error_aborts_everything() {
    let xml = r#"<iati-activities><iati-activity><iati-identifier>OK</iati-identifier></iati-activity><iati-activity><iati-identifier>  </iati-identifier></iati-activity></iati-activities>"#;
    assert_eq!(parse_activities(xml).unwrap_err(), ParseError::MissingField(Field::Identifier));
}

#[test]
fn unknown_code_in_markup() {
    let act = parse_activity(&one_tx(r#"<transaction-type code="42"/><transaction-date iso-date="2023-05-01"/><value>1</value>"#)).unwrap();
    assert_eq!(act.transactions[0].tx_type, TxType::Unknown(42));
    assert_eq!(act.transactions[0].tx_type.code(), 42);
}

#[test]
fn field_errors() {
    let e = |tx: &str| parse_activity(&one_tx(tx)).unwrap_err();
    assert_eq!(e(r#"<transaction-type/><transaction-date iso-date="2023-05-01"/><value>1</value>"#), ParseError::MissingField(Field::TransactionTypeCode));
    assert_eq!(Field::TransactionTypeCode.name(), "transaction-type/@code");
    assert_eq!(e(r#"<transaction-type code="x"/>"#), ParseError::InvalidInteger);
    assert_eq!(e(r#"<transaction-type code="70000"/>"#), ParseError::InvalidInteger);
    assert_eq!(e(r#"<transaction-type code="1"/><transaction-date/>"#), ParseError::MissingField(Field::TransactionDate));
    assert_eq!(e(r#"<transaction-type code="1"/><transaction-date iso-date="2023-13-01"/>"#), ParseError::InvalidDate);
    assert_eq!(e(r#"<value value-date="01/05/2023">1</value>"#), ParseError::InvalidDate);
    assert_eq!(e(r#"<transaction-type code="1"/><transaction-date iso-date="2023-05-01"/><value>abc</value>"#), ParseError::InvalidDecimal);
    assert_eq!(e(r#"<transaction-type code="1"/><transaction-date iso-date="2023-05-01"/><value>  </value>"#), ParseError::MissingField(Field::Value));
    assert_eq!(e(r#"<transaction-date iso-date="2023-05-01"/><value>1</value>"#), ParseError::MissingField(Field::TransactionType));
    assert_eq!(e(r#"<transaction-type code="1"/><value>1</value>"#), ParseError::MissingField(Field::TransactionDate));
    assert_eq!(e(r#"<transaction-type code="1"/><transaction-date iso-date="2023-05-01"/>"#), ParseError::MissingField(Field::Value));
    assert_eq!(Field::TransactionType.name(), "transaction-type");
    assert_eq!(Field::TransactionDate.name(), "transaction-date/@iso-date");
}

#[test]
fn missing_identifier_errors() {
    assert_eq!(parse_activity("<iati-activity></iati-activity>").unwrap_err(), ParseError::MissingField(Field::Identifier));
    assert_eq!(parse_activity("<iati-activity><iati-identifier/></iati-activity>").unwrap_err(), ParseError::MissingField(Field::Identifier));
}

#[test]
fn malformed_markup_errors() {
    let err = parse_activity("<iati-activity><iati-identifier>A</oops></iati-activity>").unwrap_err();
    assert!(matches!(err, ParseError::MalformedToken(XmlFault::Syntax)));
    let err = parse_activities("<iati-activities><iati-activity></x></iati-activities>").unwrap_err();
    assert!(matches!(err, ParseError::MalformedToken(_)));
}

#[test]
fn reopened_transaction_discards_the_open_one() {
    let xml = one_tx(r#"<transaction-type code="3"/></transaction><transaction><transaction-type code="4"/><transaction-date iso-date="2023-05-01"/><value>2</value>"#);
    // the first transaction is closed without date or amount: that is an error
    assert_eq!(parse_activity(&xml).unwrap_err(), ParseError::MissingField(Field::TransactionDate));
    let xml = r#"<iati-activity><iati-identifier>A</iati-identifier><transaction><transaction-type code="3"/><transaction><transaction-type code="4"/><transaction-date iso-date="2023-05-01"/><value>2</value></transaction></transaction></iati-activity>"#;
    let act = parse_activity(xml).unwrap();
    assert_eq!(act.transactions.len(), 1);
    assert_eq!(act.transactions[0].tx_type, TxType::Expenditure);
}

#[test]
fn fields_outside_a_transaction_are_ignored() {
    let xml = r#"<iati-activity><iati-identifier>A</iati-identifier><transaction-type code="bad"/><value currency="x"/><unknown a="b">t</unknown></iati-activity>"#;
    let act = parse_activity(xml).unwrap();
    assert_eq!(act.iati_identifier, "A");
    assert!(act.transactions.is_empty());
}

#[test]
fn transactions_keep_document_order() {
    let xml = one_tx(r#"<transaction-type code="1"/><transaction-date iso-date="2021-01-02"/><value>1</value></transaction><transaction><transaction-type code="2"/><transaction-date iso-date="2022-03-04"/><value>2.25</value>"#);
    let act = parse_activity(&xml).unwrap();
    assert_eq!(act.transactions.len(), 2);
    assert_eq!(act.transactions[0].tx_type, TxType::IncomingFunds);
    assert_eq!(act.transactions[1].tx_type, TxType::OutgoingCommitment);
    assert_eq!(act.transactions[1].date, Date { year: 2022, month: 3, day: 4 });
    assert_eq!(act.transactions[1].value.amount, Amount { mantissa: 225, scale: 2 });
}

#[test]
fn malformed_attribute_matters_only_on_read_elements() {
    let ok = r#"<iati-activity><iati-identifier>A</iati-identifier><other flag/></iati-activity>"#;
    assert_eq!(parse_activity(ok).unwrap().iati_identifier, "A");
    let bad = r#"<iati-activity><iati-identifier flag>A</iati-identifier></iati-activity>"#;
    assert_eq!(parse_activity(bad).unwrap_err(), ParseError::MalformedToken(XmlFault::Attribute));
    let bad_escape = one_tx(r#"<transaction-type code="&bogus;"/>"#);
    assert_eq!(parse_activity(&bad_escape).unwrap_err(), ParseError::MalformedToken(XmlFault::Syntax));
}

#[test]
fn tokenizer_hands_out_document_order() {
    let (toks, fault) = tokenize(r#"<a x="1&amp;2"><b/>hi</a>"#);
    assert_eq!(fault, None);
    assert_eq!(toks.len(), 4);
    match &toks[0] {
        Token::Start(t) => {
            assert_eq!(t.name, "a");
            assert_eq!(t.attrs[0].key, "x");
            assert_eq!(t.attrs[0].value, "1&2");
            assert_eq!(t.fault, None);
        }
        other => panic!("unexpected {:?}", other),
    }
    assert!(matches!(&toks[1], Token::Empty(t) if t.name == "b"));
    assert!(matches!(&toks[2], Token::Text(s) if s == "hi"));
    assert!(matches!(&toks[3], Token::End(s) if s == "a"));
    let (_, fault) = tokenize("<a></b>");
    assert_eq!(fault, Some(XmlFault::Syntax));
}

#[test]
fn failed_step_leaves_parser_unchanged() {
    let (toks, _) = tokenize(r#"<transaction><transaction-type/><transaction-type code="4"/><transaction-date iso-date="bad"/><transaction-date iso-date="2023-05-01"/><value>3</value></transaction><iati-identifier>Z</iati-identifier>"#);
    let mut p = ActivityParser::new();
    let mut errors = vec![];
    for t in &toks {
        if let Err(e) = p.step(t) {
            errors.push(e);
        }
    }
    assert_eq!(errors, vec![ParseError::MissingField(Field::TransactionTypeCode), ParseError::InvalidDate]);
    let act = p.finish().unwrap();
    assert_eq!(act.transactions.len(), 1);
    assert_eq!(act.transactions[0].tx_type, TxType::Expenditure);
    assert!(matches!(toks[0], Token::Start(_)));
}

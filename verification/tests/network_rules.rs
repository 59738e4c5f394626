use swift_mt_message::errors::ParseError;
use swift_mt_message::message_parser::RawField;
use swift_mt_message::messages::{MT200, MT204, MT204Transaction, MT941, MT942, MT950};

fn f(tag: &str, value: &str) -> RawField {
    RawField::new(tag, value)
}

#[test]
fn mt200_t80_flags_reject_and_return_codes() {
    let m = MT200 {
        field_20: f("20", "REF"),
        field_32a: f("32A", "240101USD100,"),
        field_53b: None,
        field_56: None,
        field_57: f("57A", "BANKUS33"),
        field_72: Some(f("72", "/rejt/first line\n/INS/OTHER\n/RETN")),
    };
    let errs = m.validate_network_rules(false);
    assert_eq!(errs.len(), 2);
    assert_eq!(errs[0].code, "T80");
    assert_eq!(errs[0].value, "REJT");
    assert_eq!(
        errs[0].message,
        "Field 72 contains code /REJT/. Message must comply with SWIFT Payments Reject/Return Guidelines"
    );
    assert_eq!(errs[1].value, "RETN");
}

fn tx(amount: &str) -> MT204Transaction {
    MT204Transaction {
        transaction_reference: f("20", "T"),
        related_reference: None,
        currency_amount: f("32B", amount),
        senders_correspondent: None,
        sender_to_receiver: None,
    }
}

#[test]
fn mt204_currency_and_count_rules() {
    let mut m = MT204 {
        transaction_reference: f("20", "REF"),
        sum_of_amounts: f("19", "300,"),
        execution_date: f("30", "240101"),
        account_with_institution: None,
        sender_to_receiver: None,
        transactions: vec![tx("USD100,"), tx("EUR100,"), tx("USD100,")],
    };
    let errs = m.validate_network_rules(false);
    assert_eq!(errs.len(), 1);
    assert_eq!(errs[0].code, "C02");
    assert_eq!(errs[0].value, "USD, EUR");
    m.transactions = (0..11).map(|_| tx("USD1,")).collect();
    let errs = m.validate_network_rules(true);
    assert_eq!(errs.len(), 1);
    assert_eq!(errs[0].code, "T10");
    assert_eq!(errs[0].value, "11");
}

#[test]
fn mt950_currency_prefixes() {
    let m = MT950 {
        field_20: f("20", "REF"),
        field_25: f("25", "ACC"),
        field_28c: f("28C", "1/1"),
        field_60: f("60F", "C240101EUR100,"),
        field_61: None,
        field_62: f("62F", "C240101USD100,"),
        field_64: Some(f("64", "C240101EUX100,")),
    };
    let errs = m.validate_network_rules(false);
    assert_eq!(errs.len(), 1);
    assert_eq!(errs[0].code, "C27");
    assert_eq!(errs[0].field, "62a");
    assert_eq!(
        errs[0].message,
        "Currency code mismatch: field 62a currency 'USD' (prefix 'US') must have the same first two characters as field 60a currency 'EUR' (prefix 'EU')"
    );
}

#[test]
fn mt941_and_mt942_currency_rules() {
    let m = MT941 {
        field_20: f("20", "REF"),
        field_21: None,
        field_25: f("25", "ACC"),
        field_28: f("28", "1"),
        field_13d: None,
        field_60f: None,
        field_90d: Some(f("90D", "12USD100,")),
        field_90c: None,
        field_62f: f("62F", "C240101EUR100,"),
        field_64: None,
        field_65: None,
        field_86: None,
    };
    match m.validate_instance() {
        Err(ParseError::InvalidFormat { message }) => assert_eq!(
            message,
            "MT941: Currency code mismatch - field 90D currency 'US' does not match field 62F currency 'EU'"
        ),
        _ => panic!("mismatch expected"),
    }
    let n = MT942 {
        field_20: f("20", "REF"),
        field_21: None,
        field_25: f("25", "ACC"),
        field_28c: f("28C", "1/1"),
        floor_limit_debit: f("34F", "EURD100,"),
        floor_limit_credit: Some(f("34F", "EUR50,")),
        field_13d: f("13D", "2401011200+0100"),
        field_90d: None,
        field_90c: None,
        field_86: None,
        statement_lines: vec![],
    };
    match n.validate_instance() {
        Err(ParseError::InvalidFormat { message }) => assert_eq!(
            message,
            "MT942: Second occurrence of field 34F must have indicator 'C', found 'None'"
        ),
        _ => panic!("indicator error expected"),
    }
}

use swift_mt_message::errors::ParseError;
use swift_mt_message::field_map::FieldMap;
use swift_mt_message::legacy_parser::{parse_swift_message_from_string, serialize_swift_message_to_string};
use swift_mt_message::message_parser::RawField;
use swift_mt_message::messages::{MT103, MT110, MT900, MT940, MT950};
use swift_mt_message::name_field::GenericNameAddressField;
use swift_mt_message::slash_handler::{SlashPrefixHandler, SlashPrefixType, SwiftSlashHandler};
use swift_mt_message::swift_error_codes::metadata::get_codes_by_series;
use swift_mt_message::traits::SwiftMessageBody;

fn invalid_format(r: Result<(), ParseError>) -> String {
    match r {
        Err(ParseError::InvalidFormat { message }) => message,
        other => panic!("expected an invalid format error, got {:?}", other),
    }
}

#[test]
fn mt110_without_cheques_is_refused_at_parse() {
    let r = MT110::parse_from_block4(":20:REF1\r\n-").map(|_| ());
    assert_eq!(invalid_format(r), "MT110: At least one cheque detail is required");
}

#[test]
fn mt110_with_mixed_currencies_is_refused_at_parse() {
    let text = ":20:REF1\r\n:21:CHQ1\r\n:30:240719\r\n:32B:USD100,00\r\n:59:PAYEE ONE\r\n:21:CHQ2\r\n:30:240719\r\n:32B:EUR200,00\r\n:59:PAYEE TWO\r\n-";
    let r = MT110::parse_from_block4(text).map(|_| ());
    assert_eq!(
        invalid_format(r),
        "MT110: Currency mismatch in cheque 2: expected USD, found EUR (NVR C2)"
    );
}

#[test]
fn mt110_with_one_currency_parses() {
    let text = ":20:REF1\r\n:21:CHQ1\r\n:30:240719\r\n:32B:USD100,00\r\n:59:PAYEE ONE\r\n-";
    let m = MT110::parse_from_block4(text).unwrap();
    assert_eq!(m.cheques.len(), 1);
}

#[test]
fn mt940_without_statement_lines_is_refused_at_parse() {
    let text = ":20:STMT\r\n:25:ACC\r\n:28C:1/1\r\n:60F:C240718EUR10,00\r\n:62F:C240719EUR10,00\r\n-";
    let r = MT940::parse_from_block4(text).map(|_| ());
    assert_eq!(invalid_format(r), "MT940: At least one statement line (field 61) is required");
}

#[test]
fn mt950_missing_balances_are_named() {
    let no_60 = ":20:S\r\n:25:A\r\n:28C:1/1\r\n:62F:C240719EUR1,00\r\n-";
    assert_eq!(
        invalid_format(MT950::parse_from_block4(no_60).map(|_| ())),
        "MT950: Missing required field 60 (opening balance)"
    );
    let no_62 = ":20:S\r\n:25:A\r\n:28C:1/1\r\n:60F:C240718EUR1,00\r\n-";
    assert_eq!(
        invalid_format(MT950::parse_from_block4(no_62).map(|_| ())),
        "MT950: Missing required field 62 (closing balance)"
    );
}

fn mt103(field_20: &str, field_72: Option<&str>) -> MT103 {
    let mut text = format!(":20:{}\r\n:23B:CRED\r\n:32A:241201USD1000,00\r\n:50K:JOHN DOE\r\n:59:JANE SMITH\r\n:71A:OUR\r\n", field_20);
    if let Some(v) = field_72 {
        text.push_str(&format!(":72:{}\r\n", v));
    }
    text.push('-');
    MT103::parse_from_block4(&text).unwrap()
}

#[test]
fn return_code_is_no_reject_code() {
    let m = mt103("REF1", Some("/RETN/01/RETURNED"));
    assert!(!m.has_reject_codes());
    assert!(m.has_return_codes());
    assert!(!SwiftMessageBody::has_reject_codes(&m));
}

#[test]
fn reject_code_in_field_72() {
    let m = mt103("REF1", Some("/REJT/99"));
    assert!(m.has_reject_codes());
    assert!(SwiftMessageBody::has_reject_codes(&m));
}

#[test]
fn reject_mark_in_field_20() {
    let m = mt103("REJT20240101", None);
    assert!(!m.has_reject_codes());
    assert!(SwiftMessageBody::has_reject_codes(&m));
    assert!(!SwiftMessageBody::has_return_codes(&m));
    let r = mt103("RETN20240101", None);
    assert!(SwiftMessageBody::has_return_codes(&r));
}

#[test]
fn lone_bracket_has_no_slash_prefix() {
    assert_eq!(SwiftSlashHandler::get_slash_type("["), SlashPrefixType::NoPrefix);
    assert!(!SwiftSlashHandler::has_slash_prefix("["));
}

#[test]
fn codes_of_a_series() {
    assert_eq!(get_codes_by_series("T"), vec!["T08", "T27", "T50"]);
    assert_eq!(get_codes_by_series("C"), vec!["C02"]);
    assert!(get_codes_by_series("X").is_empty());
}


#[test]
fn name_address_lines_read_back() {
    let f = GenericNameAddressField::new(vec!["BANK OF EXAMPLE".to_string(), "1 MAIN STREET".to_string()]).unwrap();
    let text = f.to_swift_string_with_tag("52D");
    assert_eq!(text, ":52D:BANK OF EXAMPLE\n1 MAIN STREET");
    let back = GenericNameAddressField::parse_with_tag(&text, "52D").unwrap();
    assert_eq!(back.name_and_address, f.name_and_address);
}

#[test]
fn field_map_lines_read_back() {
    let mut fields = FieldMap::new();
    let t20: Vec<char> = "20".chars().collect();
    let t72: Vec<char> = "72".chars().collect();
    fields.insert(&t20, ":20:REF1".to_string(), 0);
    fields.insert(&t72, ":72:/ACC/ONE".to_string(), 1);
    fields.insert(&t72, ":72:/ACC/TWO".to_string(), 2);
    let text = serialize_swift_message_to_string(&fields);
    assert_eq!(text, ":20:REF1\n:72:/ACC/ONE\n:72:/ACC/TWO");
    let back = parse_swift_message_from_string(&text).unwrap();
    assert_eq!(back.values("20"), fields.values("20"));
    assert_eq!(back.values("72"), fields.values("72"));
    assert_eq!(back.len(), 2);
}

#[test]
fn debit_confirmation_round_trip_in_written_order() {
    let m = MT900 {
        field_20: RawField::new("20", "DEB1"),
        field_21: RawField::new("21", "REL1"),
        field_25: RawField::new("25", "ACC9"),
        field_13d: Some(RawField::new("13D", "2407191200+0100")),
        field_32a: RawField::new("32A", "240719EUR100,00"),
        field_52: Some(RawField::new("52A", "BANKDEFF")),
        field_72: None,
    };
    let text = m.to_mt_string();
    assert!(text.starts_with(":20:DEB1\r\n:21:REL1\r\n:25:ACC9\r\n:13D:"));
    assert_eq!(MT900::parse_from_block4(&text).unwrap(), m);
}

#[test]
fn customer_transfer_round_trip() {
    let text = ":20:REF1\r\n:13C:/SNDTIME/1200+0100\r\n:23B:CRED\r\n:32A:241201USD1000,00\r\n:50K:JOHN DOE\r\n:59:JANE SMITH\r\n:71A:OUR\r\n:71F:USD5,00\r\n:71F:USD2,00\r\n-";
    let m = MT103::parse_from_block4(text).unwrap();
    let again = MT103::parse_from_block4(&m.to_mt_string()).unwrap();
    assert_eq!(again, m);
}

#[test]
fn cheque_request_as_field_map() {
    let text = ":20:REF1\r\n:21:CHQ1\r\n:30:240719\r\n:32B:USD100,00\r\n:59:PAYEE ONE\r\n-";
    let m = MT110::parse_from_block4(text).unwrap();
    let f = m.to_fields();
    assert_eq!(f.values("20"), Some(vec!["REF1".to_string()]));
    assert_eq!(f.values("32B"), Some(vec!["USD100,00".to_string()]));
    assert_eq!(f.get("21").unwrap()[0].1, 1);
}

#[test]
fn statement_round_trip_with_lines() {
    let text = ":20:STMT1\r\n:25:ACC1\r\n:28C:1/1\r\n:60F:C240719EUR100,00\r\n:61:2407190719C10,00NTRFREF1\r\n:86:FIRST\r\n:61:2407190719D5,00NTRFREF2\r\n:62F:C240719EUR105,00\r\n:65:C240720EUR105,00\r\n:65:C240721EUR105,00\r\n-";
    let m = swift_mt_message::messages::mt940::MT940::parse_from_block4(text).unwrap();
    assert_eq!(m.statement_lines.len(), 2);
    let again = swift_mt_message::messages::mt940::MT940::parse_from_block4(&m.to_mt_string()).unwrap();
    assert_eq!(again, m);
}

#[test]
fn request_for_transfer_round_trip_with_transactions() {
    let text = ":20:BATCH1\r\n:28D:1/1\r\n:50H:/ACC\r\nPAYER\r\n:30:240719\r\n:21:TX1\r\n:32B:EUR10,00\r\n:59:/B1\r\nPAYEE ONE\r\n:71A:SHA\r\n:21:TX2\r\n:23E:CHQB\r\n:32B:EUR20,00\r\n:59:/B2\r\nPAYEE TWO\r\n:71A:OUR\r\n-";
    let m = swift_mt_message::messages::mt101::MT101::parse_from_block4(text).unwrap();
    assert_eq!(m.transactions.len(), 2);
    let again = swift_mt_message::messages::mt101::MT101::parse_from_block4(&m.to_mt_string()).unwrap();
    assert_eq!(again, m);
}

#[test]
fn bank_transfer_round_trip_with_both_sequences() {
    let text = ":20:REF1\r\n:21:REL1\r\n:32A:240719EUR1000,00\r\n:52A:BANKDEFF\r\n:58A:BANKGB2L\r\n:50K:ORDERING\r\n:59:BENEFICIARY\r\n-";
    let m = swift_mt_message::messages::mt202::MT202::parse_from_block4(text).unwrap();
    let again = swift_mt_message::messages::mt202::MT202::parse_from_block4(&m.to_mt_string()).unwrap();
    assert_eq!(again, m);
}

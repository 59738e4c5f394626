use swift_mt_message::block4::parse_block4_fields;
use swift_mt_message::headers::UserHeader;
use swift_mt_message::errors::ParseError;
use swift_mt_message::message_parser::RawField;
use swift_mt_message::field_map::FieldMap;
use swift_mt_message::messages::{MT110, MT110Cheque, MT111, MT199, MT290, MT900, MT950};
use swift_mt_message::parser::sequence_parser::{get_sequence_config, split_into_sequences};
use swift_mt_message::parser::consumption::FieldConsumptionTracker;
use swift_mt_message::slash_handler::{SlashPrefixHandler, SlashPrefixType, SwiftSlashHandler};

#[test]
fn written_fields_are_read_back() {
    let text = ":20:REF1\r\n:25:ACC\r\nLINE2\r\n:32A:240719USD1000,00\r\n-";
    let map = parse_block4_fields(text);
    assert_eq!(map.values("20"), Some(vec!["REF1".to_string()]));
    assert_eq!(map.values("25"), Some(vec!["ACC\r\nLINE2".to_string()]));
    assert_eq!(map.values("32A"), Some(vec!["240719USD1000,00".to_string()]));
}

#[test]
fn message_written_and_parsed_again() {
    let text = ":20:20240719001\r\n:21:REF20240719001\r\n:25:12345678901234567890\r\n:32A:240719USD1000,00\r\n-";
    let m = MT900::parse_from_block4(text).unwrap();
    let out = m.to_mt_string();
    let again = MT900::parse_from_block4(&out).unwrap();
    assert_eq!(again.to_mt_string(), out);
    assert_eq!(again.field_25.value, "12345678901234567890");
}

#[test]
fn slash_serialization_is_idempotent_and_reads_back() {
    let types = [
        SlashPrefixType::NoPrefix,
        SlashPrefixType::Optional,
        SlashPrefixType::Required,
        SlashPrefixType::Double,
        SlashPrefixType::Wrapper,
        SlashPrefixType::OptionalNumeric(5),
    ];
    for t in types.iter() {
        let once = SwiftSlashHandler::serialize_with_slash("12345", t.clone());
        let twice = SwiftSlashHandler::serialize_with_slash(&once, t.clone());
        assert_eq!(once, twice);
        assert_eq!(SwiftSlashHandler::parse_with_slash(&once, t.clone()), Ok("12345".to_string()));
    }
}

#[test]
fn consumed_values_are_not_handed_out_again() {
    let mut t = FieldConsumptionTracker::new();
    let values = vec![("A".to_string(), 3usize), ("B".to_string(), 7usize)];
    assert_eq!(t.get_next_available("50", &values), Some(("A", 3)));
    t.mark_consumed("50", 3);
    assert_eq!(t.get_next_available("50", &values), Some(("B", 7)));
    t.mark_consumed("50", 7);
    assert_eq!(t.get_next_available("50", &values), None);
    assert_eq!(t.get_next_available("59", &values), Some(("A", 3)));
}

#[test]
fn user_header_flags() {
    let h = UserHeader::parse("{108:MUR1}{119:STP}").unwrap();
    assert_eq!(h.message_user_reference.as_deref(), Some("MUR1"));
    assert_eq!(h.validation_flag.as_deref(), Some("STP"));
    let none = UserHeader::parse("{108:X}").unwrap();
    assert!(none.validation_flag.is_none());
}

fn cheque(amount_tag: &str, amount: &str) -> MT110Cheque {
    MT110Cheque {
        field_21: RawField::new("21", "CHQ"),
        field_30: RawField::new("30", "240101"),
        field_32: RawField::new(amount_tag, amount),
        field_50: None,
        field_52: None,
        field_59: RawField::new("59", "PAYEE"),
    }
}

#[test]
fn mt110_instance_rules() {
    let mut m = MT110 {
        field_20: RawField::new("20", "REF"),
        field_53a: None,
        field_54a: None,
        field_72: None,
        cheques: vec![cheque("32B", "USD100,"), cheque("32A", "240102EUR50,")],
    };
    match m.validate_instance() {
        Err(ParseError::InvalidFormat { message }) => assert_eq!(
            message,
            "MT110: Currency mismatch in cheque 2: expected USD, found EUR (NVR C2)"
        ),
        _ => panic!("currency mismatch expected"),
    }
    m.cheques = vec![cheque("32B", "USD100,"), cheque("32A", "240102USD50,")];
    assert!(m.validate_instance().is_ok());
    m.cheques = vec![];
    assert!(m.validate_instance().is_err());
}

#[test]
fn plain_message_round_trip() {
    let m = MT199 {
        field_20: RawField::new("20", "REF123"),
        field_21: None,
        field_79: RawField::new("79", "FREE FORMAT TEXT\r\nSECOND LINE"),
    };
    let text = m.to_mt_string();
    assert_eq!(text, ":20:REF123\r\n:79:FREE FORMAT TEXT\r\nSECOND LINE\r\n-");
    let back = MT199::parse_from_block4(&text).unwrap();
    assert_eq!(back, m);
}

#[test]
fn split_keeps_every_field() {
    let mut fields = FieldMap::new();
    for (i, (tag, value)) in [("20", "R"), ("21", "A"), ("32B", "X"), ("21", "B"), ("72", "I"), ("19", "S")]
        .iter()
        .enumerate()
    {
        let t: Vec<char> = tag.chars().collect();
        fields.insert(&t, value.to_string(), i);
    }
    let s = split_into_sequences(&fields, &get_sequence_config("MT104")).unwrap();
    let count = |m: &FieldMap| (0..m.len()).map(|i| m.group(i).1.len()).sum::<usize>();
    assert_eq!(count(&s.sequence_a) + count(&s.sequence_b) + count(&s.sequence_c), 6);
}

#[test]
fn message_with_option_fields_round_trip() {
    let m = MT111 {
        field_20: RawField::new("20", "STOP1"),
        field_21: RawField::new("21", "CHQ9"),
        field_30: RawField::new("30", "240719"),
        field_32: RawField::new("32B", "USD1500,00"),
        field_52: Some(RawField::new("52D", "DRAWER BANK\r\nLONDON")),
        field_59: None,
        field_75: Some(RawField::new("75", "QUERY")),
    };
    let text = m.to_mt_string();
    assert_eq!(
        text,
        ":20:STOP1\r\n:21:CHQ9\r\n:30:240719\r\n:32B:USD1500,00\r\n:52D:DRAWER BANK\r\nLONDON\r\n:75:QUERY\r\n-"
    );
    let back = MT111::parse_from_block4(&text).unwrap();
    assert_eq!(back, m);
}

#[test]
fn charges_message_round_trip() {
    let m = MT290 {
        field_20: RawField::new("20", "CHG1"),
        field_21: RawField::new("21", "REL1"),
        field_25: RawField::new("25", "ACC123"),
        field_32: RawField::new("32D", "240719EUR12,50"),
        field_52: Some(RawField::new("52A", "BANKBEBB")),
        field_71b: RawField::new("71B", "/COMM/"),
        field_72: None,
    };
    let back = MT290::parse_from_block4(&m.to_mt_string()).unwrap();
    assert_eq!(back, m);
}

#[test]
fn statement_with_repeated_lines_round_trip() {
    let m = MT950 {
        field_20: RawField::new("20", "STMT1"),
        field_25: RawField::new("25", "123456789"),
        field_28c: RawField::new("28C", "1/1"),
        field_60: RawField::new("60F", "C240718EUR1000,00"),
        field_61: Some(vec![
            RawField::new("61", "2407190719C500,00NTRFREF1//B1"),
            RawField::new("61", "2407190719D200,00NTRFREF2//B2"),
        ]),
        field_62: RawField::new("62F", "C240719EUR1300,00"),
        field_64: None,
    };
    let text = m.to_mt_string();
    let back = MT950::parse_from_block4(&text).unwrap();
    assert_eq!(back, m);
}

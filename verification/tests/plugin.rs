use swift_mt_message::errors::{ParseError, ValidationError, ValidationResult};
use swift_mt_message::plugin::{replace_nth_field_50, EnumVariants, Parse, Publish, Validate};

const MT103_RAW: &str = "{1:F01BANKDEFFAXXX0123456789}{2:I103BANKDEFFAXXXU3003}{4:\n:20:FT21234567890\n:23B:CRED\n:32A:210315EUR1234567,89\n:50K:ACME CORPORATION\n:59A:/DE89370400440532013000\nDEUTDEFF\n:71A:OUR\n-}";

#[test]
fn manual_unescape_strips_quotes_and_escapes() {
    assert_eq!(Parse::manual_unescape("  \"a\\nb\"  "), "a\nb");
    assert_eq!(Parse::manual_unescape("x\\r\\ny"), "x\ny");
    assert_eq!(Parse::manual_unescape("\\u003Ctag\\u003E \\u002F \\\\"), "<tag> / \\");
    assert_eq!(Parse::manual_unescape("\""), "\"");
    assert_eq!(Parse::manual_unescape("plain"), "plain");
}

#[test]
fn parse_swift_mt_reports_type_and_method() {
    let escaped = MT103_RAW.replace('\n', "\\n");
    let p = Parse::parse_swift_mt(&escaped).unwrap();
    assert_eq!(p.message_type, "103");
    // CRED payments are STP-compliant by default.
    assert_eq!(p.method, "stp");
    assert_eq!(Parse::processing_method(&p.message), "stp");
}

#[test]
fn parse_swift_mt_keeps_the_parser_error() {
    let r = Parse::parse_swift_mt("{1:F01BANKDEFFAXXX0123456789}{2:I1}{4:\n:20:X\n-}");
    match r {
        Err(ParseError::InvalidBlockStructure { message }) => {
            assert_eq!(message, "Application header too short")
        }
        _ => panic!("expected a block structure error"),
    }
}

#[test]
fn field_50_variants_are_put_back() {
    let mut s = ":20:A\r\n:50:X\r\n:50:Y\r\n-".to_string();
    assert!(replace_nth_field_50(&mut s, 1, "K"));
    assert_eq!(s, ":20:A\r\n:50:X\r\n:50K:Y\r\n-");
    assert!(!replace_nth_field_50(&mut s, 1, "F"));
    assert!(replace_nth_field_50(&mut s, 0, "F"));
    assert_eq!(s, ":20:A\r\n:50F:X\r\n:50K:Y\r\n-");
}

#[test]
fn numbered_enum_fields_are_fixed_level_by_level() {
    let top = EnumVariants {
        field_50_1: Some("C".to_string()),
        field_50_2: None,
        field_60: Some("F".to_string()),
        field_62: None,
    };
    let tx = EnumVariants {
        field_50_1: Some("K".to_string()),
        field_50_2: None,
        field_60: None,
        field_62: Some("M".to_string()),
    };
    let text = ":50:A\r\n:60:B\r\n:50:C\r\n:62:D\r\n-";
    let r = Publish::fix_numbered_enum_fields_in_mt(text, &top, &vec![tx]);
    assert_eq!(r, ":50C:A\r\n:60F:B\r\n:50K:C\r\n:62M:D\r\n-");
    assert_eq!(Publish::normalize_message_type("MTMT103"), "103");
    assert_eq!(Publish::normalize_message_type("202"), "202");
}

#[test]
fn validation_error_texts() {
    let e = ValidationError::LengthValidation { field_tag: "20".to_string(), expected: 16, actual: 17 };
    assert_eq!(
        Validate::format_validation_error(&e),
        "Field 20: Length validation failed - expected 16, got 17"
    );
    let b = ValidationError::BusinessRuleValidation { rule_name: "C1".to_string(), message: "bad".to_string() };
    assert_eq!(Validate::format_validation_error(&b), "Business Rule 'C1': bad");
    let r = ValidationResult { is_valid: false, errors: vec![b.clone()], warnings: vec![] };
    assert_eq!(Validate::result_error_texts(&r), vec!["Business Rule 'C1': bad".to_string()]);
    let ok = ValidationResult { is_valid: true, errors: vec![], warnings: vec![] };
    assert!(Validate::result_error_texts(&ok).is_empty());
    let pe = ParseError::InvalidFormat { message: "oops".to_string() };
    assert_eq!(
        Validate::parse_error_texts(&pe),
        vec!["Parse error: Invalid format: oops".to_string(), "Invalid message format: oops".to_string()]
    );
}

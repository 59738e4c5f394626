use swift_mt_message::errors::ParseError;
use swift_mt_message::messages::MT935;

#[test]
fn mt935_shares_out_the_rates() {
    let text = ":20:RATES1\r\n:23:USDCALL\r\n:23:EUR3NOTICE\r\n:30:240101\r\n:30:240201\r\n:37H:C1,5\r\n:37H:D2,0\r\n:37H:C0,5\r\n:72:/INFO/\r\n-";
    let m = MT935::parse_from_block4(text).unwrap();
    assert_eq!(m.field_20.value, "RATES1");
    assert_eq!(m.rate_changes.len(), 2);
    assert_eq!(m.rate_changes[0].field_23.as_ref().unwrap().value, "USDCALL");
    assert_eq!(m.rate_changes[0].field_37h.len(), 2);
    assert_eq!(m.rate_changes[1].field_37h.len(), 1);
    assert_eq!(m.rate_changes[1].field_37h[0].value, "C0,5");
    assert_eq!(m.field_72.as_ref().unwrap().value, "/INFO/");
    let out = m.to_mt_string();
    assert!(out.starts_with(":20:RATES1\r\n:23:USDCALL\r\n:30:240101\r\n:37H:C1,5\r\n:37H:D2,0\r\n"));
    assert!(out.ends_with(":72:/INFO/\r\n-"));
}

#[test]
fn mt935_needs_a_rate_change() {
    match MT935::parse_from_block4(":20:RATES1\r\n-") {
        Err(ParseError::InvalidFormat { message }) => {
            assert_eq!(message, "MT935: At least one rate change sequence is required")
        }
        _ => panic!("expected an error"),
    }
}

#[test]
fn mt935_each_change_needs_a_rate() {
    let text = ":20:R\r\n:25:ACC1\r\n:25:ACC2\r\n:30:240101\r\n:30:240102\r\n:37H:C1,0\r\n-";
    match MT935::parse_from_block4(text) {
        Err(ParseError::InvalidFormat { message }) => {
            assert_eq!(message, "MT935: At least one field 37H is required for sequence 2")
        }
        _ => panic!("expected an error"),
    }
}

#[test]
fn mt935_network_rules() {
    let text = ":20:R\r\n:23:USD05CALL\r\n:30:240101\r\n:37H:X1,0\r\n-";
    let m = MT935::parse_from_block4(text).unwrap();
    let errs = m.validate_network_rules(false);
    assert_eq!(errs.len(), 2);
    assert_eq!(errs[0].code, "T26");
    assert_eq!(
        errs[0].message,
        "Sequence 1: Number of Days '05' is only allowed when Function is NOTICE, but found 'CALL'"
    );
    assert_eq!(errs[1].code, "T51");
    assert_eq!(errs[1].value, "X");
    let both = ":20:R\r\n:23:USDCALL\r\n:25:ACC\r\n:30:240101\r\n:37H:C1,0\r\n-";
    let m2 = MT935::parse_from_block4(both).unwrap();
    let errs2 = m2.validate_network_rules(true);
    assert_eq!(errs2.len(), 1);
    assert_eq!(errs2[0].code, "C83");
    assert_eq!(errs2[0].message, "Sequence 1: Both field 23 and field 25 are present. Either field 23 or field 25, but not both, must be present");
}

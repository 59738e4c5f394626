use swift_mt_message::messages::{MT103, MT900, MT910, MT920};

#[test]
fn test_mt103_parse() {
    let mt103_text = r#":20:123456789012345
:23B:CRED
:32A:241201USD1000000,00
:50K:/12345678901234567890
JOHN DOE
123 MAIN STREET
NEW YORK, NY 10001
:59:/98765432109876543210
JANE SMITH
456 OAK AVENUE
LOS ANGELES, CA 90001
:71A:OUR
-"#;
    let result = MT103::parse_from_block4(mt103_text);
    assert!(result.is_ok());
    let mt103 = result.unwrap();
    assert_eq!(mt103.field_20.value, "123456789012345");
    assert_eq!(mt103.field_23b.value, "CRED");
    assert_eq!(mt103.field_71a.value, "OUR");
}

#[test]
fn test_mt103_stp_compliance() {
    let mt103_text = r#":20:123456789012345
:23B:SPRI
:32A:241201USD1000000,00
:50K:/12345678901234567890
JOHN DOE
123 MAIN STREET
NEW YORK, NY 10001
:59:/98765432109876543210
JANE SMITH
456 OAK AVENUE
LOS ANGELES, CA 90001
:71A:OUR
-"#;
    let result = MT103::parse_from_block4(mt103_text);
    assert!(result.is_ok());
    let mt103 = result.unwrap();

    // SPRI message without field 56 should be STP compliant
    assert!(mt103.is_stp_compliant());
}

#[test]
fn test_mt900_parse() {
    let mt900_text = r#":20:20240719001
:21:REF20240719001
:25:12345678901234567890
:32A:240719USD1000,00
-"#;
    let result = MT900::parse_from_block4(mt900_text);
    assert!(result.is_ok());
    let mt900 = result.unwrap();
    assert_eq!(mt900.field_20.value, "20240719001");
    assert_eq!(mt900.field_21.value, "REF20240719001");
}

#[test]
fn test_mt910_parse() {
    let mt910_text = r#":20:20240719001
:21:REF20240719001
:25:12345678901234567890
:32A:240719USD1000,00
:50K:JOHN DOE
123 MAIN STREET
NEW YORK
-"#;
    let result = MT910::parse_from_block4(mt910_text);
    assert!(result.is_ok());
    let mt910 = result.unwrap();
    assert_eq!(mt910.field_20.value, "20240719001");
    assert_eq!(mt910.field_21.value, "REF20240719001");
}

#[test]
fn test_mt910_validation_c1() {
    let mt910_text = r#":20:20240719001
:21:REF20240719001
:25:12345678901234567890
:32A:240719USD1000,00
-"#;
    let result = MT910::parse(mt910_text);
    assert!(result.is_err());
    assert!(result.unwrap_err().to_string().contains("Either field 50"));
}

#[test]
fn test_mt920_parse() {
    let mt920_text = r#":20:REQ123456
:12:100
:25:/GB12ABCD12345678901234
:12:200
:25:/US98EFGH98765432109876
-"#;
    let result = MT920::parse_from_block4(mt920_text);
    if let Err(ref e) = result {
        println!("MT920 parse error: {:?}", e);
    }
    assert!(result.is_ok());
    let mt920 = result.unwrap();
    assert_eq!(mt920.field_20.value, "REQ123456");
    assert_eq!(mt920.sequence.len(), 2);
    assert_eq!(mt920.sequence[0].field_12.value, "100");
    assert_eq!(mt920.sequence[1].field_12.value, "200");
}

#[test]
fn test_mt920_validation() {
    let mt920_text = r#":20:REQ123456
-"#;
    let result = MT920::parse(mt920_text);
    assert!(result.is_err());
    assert!(result.unwrap_err().to_string().contains("At least one sequence"));
}

use swift_mt_message::name_field::GenericNameAddressField;

#[test]
fn test_generic_name_address_field_creation_single_line() {
    let field = GenericNameAddressField::new(vec!["DEUTSCHE BANK AG".to_string()]).unwrap();
    assert_eq!(field.line_count(), 1);
    assert_eq!(field.name(), Some("DEUTSCHE BANK AG"));
    assert_eq!(field.address_lines().len(), 0);
}

#[test]
fn test_generic_name_address_field_creation_multiple_lines() {
    let field = GenericNameAddressField::new(vec![
        "DEUTSCHE BANK AG".to_string(),
        "TAUNUSANLAGE 12".to_string(),
        "60325 FRANKFURT AM MAIN".to_string(),
        "GERMANY".to_string(),
    ])
    .unwrap();
    assert_eq!(field.line_count(), 4);
    assert_eq!(field.name(), Some("DEUTSCHE BANK AG"));
    assert_eq!(field.address_lines().len(), 3);
    assert_eq!(field.line(1), Some("TAUNUSANLAGE 12"));
}

#[test]
fn test_generic_name_address_field_from_string() {
    let field = GenericNameAddressField::from_string(
        "DEUTSCHE BANK AG\nTAUNUSANLAGE 12\n60325 FRANKFURT AM MAIN\nGERMANY",
    )
    .unwrap();
    assert_eq!(field.line_count(), 4);
    assert_eq!(field.name(), Some("DEUTSCHE BANK AG"));
}

#[test]
fn test_generic_name_address_field_parse_with_tag() {
    let field =
        GenericNameAddressField::parse_with_tag(":52D:DEUTSCHE BANK AG\nTAUNUSANLAGE 12", "52D")
            .unwrap();
    assert_eq!(field.line_count(), 2);
    assert_eq!(field.name(), Some("DEUTSCHE BANK AG"));
}

#[test]
fn test_generic_name_address_field_to_swift_string_with_tag() {
    let field = GenericNameAddressField::new(vec![
        "DEUTSCHE BANK AG".to_string(),
        "TAUNUSANLAGE 12".to_string(),
    ])
    .unwrap();
    assert_eq!(
        field.to_swift_string_with_tag("52D"),
        ":52D:DEUTSCHE BANK AG\nTAUNUSANLAGE 12"
    );
}

#[test]
fn test_generic_name_address_field_validation_errors() {
    let result = GenericNameAddressField::new(vec![]);
    assert!(result.is_err());

    let result = GenericNameAddressField::new(vec![
        "LINE1".to_string(),
        "LINE2".to_string(),
        "LINE3".to_string(),
        "LINE4".to_string(),
        "LINE5".to_string(),
    ]);
    assert!(result.is_err());

    let result = GenericNameAddressField::new(vec!["A".repeat(36)]);
    assert!(result.is_err());

    let result = GenericNameAddressField::new(vec!["".to_string()]);
    assert!(result.is_err());

    let result = GenericNameAddressField::new(vec!["   ".to_string()]);
    assert!(result.is_err());
}

#[test]
fn test_generic_name_address_field_display() {
    let field = GenericNameAddressField::new(vec![
        "DEUTSCHE BANK AG".to_string(),
        "TAUNUSANLAGE 12".to_string(),
    ])
    .unwrap();
    assert_eq!(field.to_string(), "DEUTSCHE BANK AG / TAUNUSANLAGE 12");
}

#[test]
fn test_generic_name_address_field_description() {
    let field = GenericNameAddressField::new(vec!["DEUTSCHE BANK AG".to_string()]).unwrap();
    assert_eq!(
        field.description("Test Institution"),
        "Test Institution (DEUTSCHE BANK AG, 1 line)"
    );
}

#[test]
fn test_generic_name_address_field_is_valid_institution_name() {
    let valid_field = GenericNameAddressField::new(vec!["DEUTSCHE BANK AG".to_string()]).unwrap();
    assert!(valid_field.is_valid_institution_name());

    let invalid_field = GenericNameAddressField::new(vec!["123456789".to_string()]).unwrap();
    assert!(!invalid_field.is_valid_institution_name());
}

#[test]
fn test_generic_name_address_field_to_single_line() {
    let field = GenericNameAddressField::new(vec![
        "DEUTSCHE BANK AG".to_string(),
        "TAUNUSANLAGE 12".to_string(),
        "FRANKFURT".to_string(),
    ])
    .unwrap();
    assert_eq!(
        field.to_single_line(),
        "DEUTSCHE BANK AG, TAUNUSANLAGE 12, FRANKFURT"
    );
}

#[test]
fn name_field_lines_are_trimmed_and_counted_in_bytes() {
    let field = GenericNameAddressField::new(vec!["  BANK  ".to_string()]).unwrap();
    assert_eq!(field.name(), Some("BANK"));
    // 35 two-byte characters are 70 bytes: too long.
    let wide: String = std::iter::repeat('é').take(35).collect();
    assert!(GenericNameAddressField::new(vec![wide]).is_err());
    let two = GenericNameAddressField::new(vec!["A".to_string(), "B".to_string()]).unwrap();
    assert_eq!(two.description("X"), "X (A, 2 lines)");
}

#[test]
fn accepted_lines_are_kept_trimmed() {
    let field = GenericNameAddressField::new(vec!["  ACME CORP  ".to_string(), "MAIN STREET 1".to_string()]).unwrap();
    assert_eq!(field.name_and_address, vec!["ACME CORP".to_string(), "MAIN STREET 1".to_string()]);
    assert!(GenericNameAddressField::new(vec!["A".repeat(35)]).is_ok());
    assert!(GenericNameAddressField::new(vec!["CAF\u{c9}".to_string()]).is_err());
    assert!(GenericNameAddressField::new(vec!["TAB\tHERE".to_string()]).is_err());
}

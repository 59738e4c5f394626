use swift_mt_message::slash_handler::{SlashPrefixHandler, SlashPrefixType, SwiftSlashHandler};

#[test]
fn test_slash_type_detection() {
    // Test various patterns
    assert_eq!(SwiftSlashHandler::get_slash_type("[/34x]"), SlashPrefixType::Optional);
    assert_eq!(SwiftSlashHandler::get_slash_type("/34x"), SlashPrefixType::Required);
    assert_eq!(SwiftSlashHandler::get_slash_type("[//16x]"), SlashPrefixType::Double);
    assert_eq!(SwiftSlashHandler::get_slash_type("/8c/"), SlashPrefixType::Wrapper);
    assert_eq!(SwiftSlashHandler::get_slash_type("[/5n]"), SlashPrefixType::OptionalNumeric(5));
    assert_eq!(SwiftSlashHandler::get_slash_type("34x"), SlashPrefixType::NoPrefix);
}

#[test]
fn test_parse_with_slash() {
    // Test optional slash
    assert_eq!(
        SwiftSlashHandler::parse_with_slash("/ACC123", SlashPrefixType::Optional),
        Ok("ACC123".to_string())
    );
    assert_eq!(
        SwiftSlashHandler::parse_with_slash("ACC123", SlashPrefixType::Optional),
        Ok("ACC123".to_string())
    );

    // Test required slash
    assert_eq!(
        SwiftSlashHandler::parse_with_slash("/ACC456", SlashPrefixType::Required),
        Ok("ACC456".to_string())
    );

    // Test double slash
    assert_eq!(
        SwiftSlashHandler::parse_with_slash("//TRN789", SlashPrefixType::Double),
        Ok("TRN789".to_string())
    );

    // Test wrapper
    assert_eq!(
        SwiftSlashHandler::parse_with_slash("/30E/", SlashPrefixType::Wrapper),
        Ok("30E".to_string())
    );

    // Test optional numeric
    assert_eq!(
        SwiftSlashHandler::parse_with_slash("/12345", SlashPrefixType::OptionalNumeric(5)),
        Ok("12345".to_string())
    );
}

#[test]
fn test_serialize_with_slash() {
    // Test optional slash
    assert_eq!(SwiftSlashHandler::serialize_with_slash("ACC123", SlashPrefixType::Optional), "/ACC123");
    assert_eq!(SwiftSlashHandler::serialize_with_slash("", SlashPrefixType::Optional), "");

    // Test required slash
    assert_eq!(SwiftSlashHandler::serialize_with_slash("ACC456", SlashPrefixType::Required), "/ACC456");

    // Test double slash
    assert_eq!(SwiftSlashHandler::serialize_with_slash("TRN789", SlashPrefixType::Double), "//TRN789");

    // Test wrapper
    assert_eq!(SwiftSlashHandler::serialize_with_slash("30E", SlashPrefixType::Wrapper), "/30E/");

    // Test optional numeric
    assert_eq!(
        SwiftSlashHandler::serialize_with_slash("12345", SlashPrefixType::OptionalNumeric(5)),
        "/12345"
    );
}

#[test]
fn test_idempotent_serialization() {
    // Test that serializing already-formatted values doesn't duplicate slashes
    assert_eq!(SwiftSlashHandler::serialize_with_slash("/ACC123", SlashPrefixType::Optional), "/ACC123");
    assert_eq!(SwiftSlashHandler::serialize_with_slash("//TRN789", SlashPrefixType::Double), "//TRN789");
    assert_eq!(SwiftSlashHandler::serialize_with_slash("/30E/", SlashPrefixType::Wrapper), "/30E/");
}

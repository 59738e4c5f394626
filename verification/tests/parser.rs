use swift_mt_message::errors::ParseError;
use swift_mt_message::legacy_parser::SwiftParser;

#[test]
fn test_extract_blocks_legacy() {
    let raw_message = "{1:F01BANKDEFFAXXX0123456789}{2:I103BANKDEFFAXXXU3003}{4:\n:20:FT21234567890\n:23B:CRED\n-}";

    // Test using extract_block for each block
    let block1 = SwiftParser::extract_block(raw_message, 1).unwrap();
    let block2 = SwiftParser::extract_block(raw_message, 2).unwrap();
    let block3 = SwiftParser::extract_block(raw_message, 3).unwrap();
    let block4 = SwiftParser::extract_block(raw_message, 4).unwrap();
    let block5 = SwiftParser::extract_block(raw_message, 5).unwrap();

    assert!(block1.is_some());
    assert!(block2.is_some());
    assert!(block3.is_none());
    assert!(block4.is_some());
    assert!(block5.is_none());
    assert_eq!(block1.as_ref().unwrap(), "F01BANKDEFFAXXX0123456789");
    assert_eq!(block2.as_ref().unwrap(), "I103BANKDEFFAXXXU3003");
}

#[test]
fn test_extract_block() {
    let raw_message = "{1:F01BANKDEFFAXXX0123456789}{2:I103BANKDEFFAXXXU3003}{4:\n:20:FT21234567890\n:23B:CRED\n-}";

    // Test individual block extraction
    let block1 = SwiftParser::extract_block(raw_message, 1).unwrap();
    let block2 = SwiftParser::extract_block(raw_message, 2).unwrap();
    let block3 = SwiftParser::extract_block(raw_message, 3).unwrap();
    let block4 = SwiftParser::extract_block(raw_message, 4).unwrap();
    let block5 = SwiftParser::extract_block(raw_message, 5).unwrap();

    assert!(block1.is_some());
    assert!(block2.is_some());
    assert!(block3.is_none());
    assert!(block4.is_some());
    assert!(block5.is_none());

    assert_eq!(block1.unwrap(), "F01BANKDEFFAXXX0123456789");
    assert_eq!(block2.unwrap(), "I103BANKDEFFAXXXU3003");
    assert_eq!(block4.unwrap(), "\n:20:FT21234567890\n:23B:CRED\n");

    // Test invalid block index with a message that contains the block marker
    let invalid_message = "{6:INVALID}";
    let result = SwiftParser::extract_block(invalid_message, 6);
    assert!(result.is_err());

    // Test block that doesn't exist (should return Ok(None))
    let result_none = SwiftParser::extract_block(raw_message, 6);
    assert!(result_none.is_ok());
    assert!(result_none.unwrap().is_none());
}

#[test]
fn test_parse_block4_fields() {
    let block4 = "\n:20:FT21234567890\n:23B:CRED\n:32A:210315EUR1234567,89\n";
    let field_map = SwiftParser::parse_block4_fields(block4).unwrap();

    assert_eq!(field_map.values("20"), Some(vec![":20:FT21234567890".to_string()]));
    assert_eq!(field_map.values("23B"), Some(vec![":23B:CRED".to_string()]));
    assert_eq!(field_map.values("32A"), Some(vec![":32A:210315EUR1234567,89".to_string()]));
}

#[test]
fn test_debug_mt103_fields() {
    let block4 = r#"
:20:FT21001234567890
:23B:CRED
:32A:240101USD1000,00
:50K:/1234567890
ACME CORPORATION
123 MAIN STREET
NEW YORK NY 10001
:52A:BNPAFRPPXXX
:57A:DEUTDEFFXXX
:59:/DE89370400440532013000
MUELLER GMBH
HAUPTSTRASSE 1
10115 BERLIN
:70:PAYMENT FOR INVOICE 12345
:71A:OUR
"#;
    let field_map = SwiftParser::parse_block4_fields(block4).unwrap();

    println!("Extracted fields:");
    for i in 0..field_map.len() {
        let (tag, values) = field_map.group(i);
        println!("  {tag}: {values:?}");
    }

    // Check specific fields
    assert!(field_map.contains_key("20"));
    assert!(field_map.contains_key("23B"));
    assert!(field_map.contains_key("32A"));
    assert!(field_map.contains_key("50"));
    assert!(field_map.contains_key("52A"));
    assert!(field_map.contains_key("57A"));
    assert!(field_map.contains_key("59"));
    assert!(field_map.contains_key("70"));
    assert!(field_map.contains_key("71A"));
}

#[test]
fn test_block3_parsing_with_nested_tags() {
    let raw_message = r#"{1:F01BNPAFRPPXXX0000000000}{2:O1031234240101DEUTDEFFXXXX12345678952401011234N}{3:{103:EBA}{121:180f1e65-90e0-44d5-a49a-92b55eb3025f}}{4:
:20:FT21001234567890
:23B:CRED
-}"#;

    let block3 = SwiftParser::extract_block(raw_message, 3).unwrap();

    assert!(block3.is_some());
    let block3_content = block3.unwrap();
    println!("Block 3 content: '{block3_content}'");

    // Should contain both tags
    assert_eq!(block3_content, "{103:EBA}{121:180f1e65-90e0-44d5-a49a-92b55eb3025f}");
    assert!(block3_content.contains("103:EBA"));
    assert!(block3_content.contains("121:180f1e65-90e0-44d5-a49a-92b55eb3025f"));
}

#[test]
fn test_find_matching_brace() {
    // Simple case: "{simple}" -> closing } at position 7
    assert_eq!(SwiftParser::find_matching_brace("{simple}"), Some(7));

    // Nested braces: "{outer{inner}outer}" -> closing } at position 18
    assert_eq!(SwiftParser::find_matching_brace("{outer{inner}outer}"), Some(18));

    // SWIFT block 3 case: "{{103:EBA}{121:180f1e65-90e0-44d5-a49a-92b55eb3025f}}"
    let test_str = "{{103:EBA}{121:180f1e65-90e0-44d5-a49a-92b55eb3025f}}";
    let expected_pos = test_str.len() - 1; // Last character position
    assert_eq!(SwiftParser::find_matching_brace(test_str), Some(expected_pos));

    // Simple nested: "{103:EBA}" -> closing } at position 8
    assert_eq!(SwiftParser::find_matching_brace("{103:EBA}"), Some(8));

    // No closing brace
    assert_eq!(SwiftParser::find_matching_brace("{no_close"), None);

    // Not starting with brace
    assert_eq!(SwiftParser::find_matching_brace("no_brace"), None);
}

#[test]
fn debug_find_matching_brace() {
    let test_str = "{103:EBA}{121:180f1e65-90e0-44d5-a49a-92b55eb3025f}";
    println!("Test string: '{test_str}'");
    println!("Length: {}", test_str.len());

    let result = SwiftParser::find_matching_brace(test_str);
    println!("Result: {result:?}");

    // Let's manually check what character is at different positions
    for (i, ch) in test_str.char_indices() {
        println!("Position {i}: '{ch}'");
    }
}

#[test]
fn test_parse_auto_mt103() {
    let raw_mt103 = r#"{1:F01BANKDEFFAXXX0123456789}{2:I103BANKDEFFAXXXU3003}{4:
:20:FT21234567890
:23B:CRED
:32A:210315EUR1234567,89
:50K:ACME CORPORATION
123 BUSINESS AVENUE
NEW YORK NY 10001
:52A:BANKDEFF
:57A:DEUTDEFF
:59A:/DE89370400440532013000
DEUTDEFF
:70:PAYMENT FOR SERVICES
:71A:OUR
-}"#;

    let parsed = SwiftParser::parse_auto(raw_mt103).unwrap();

    // Check that it detected the correct message type
    assert_eq!(parsed.message_type(), "103");

    // Check that we can extract the MT103 message
    let mt103_msg = parsed.as_mt103().unwrap();
    assert_eq!(mt103_msg.message_type, "103");

    println!("Successfully parsed MT103 message with auto-detection");
}

#[test]
fn test_parse_auto_unsupported_type() {
    let raw_message = r#"{1:F01BANKDEFFAXXX0123456789}{2:I999BANKDEFFAXXXU3003}{4:
:20:FT21234567890
-}"#;

    let result = SwiftParser::parse_auto(raw_message);
    assert!(result.is_err());

    if let Err(ParseError::UnsupportedMessageType { message_type }) = result {
        assert_eq!(message_type, "999");
    } else {
        panic!("Expected UnsupportedMessageType error");
    }
}

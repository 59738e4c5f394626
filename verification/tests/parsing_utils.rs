use swift_mt_message::parsing_utils::{extract_block4, finalize_mt_string, remove_trailing_crlf};

#[test]
fn test_extract_block4_with_blocks() {
    let input = "{1:F01BANKFRPPAXXX0000000000}{4:\r\n:20:TEST123\r\n-}";
    let result = extract_block4(input);
    assert!(result.is_ok());
    assert!(result.unwrap().contains(":20:TEST123"));
}

#[test]
fn test_extract_block4_plain() {
    let input = ":20:TEST123\r\n";
    let result = extract_block4(input);
    assert!(result.is_ok());
    assert_eq!(result.unwrap(), input);
}

#[test]
fn test_extract_block4_missing() {
    let input = "{1:F01BANKFRPPAXXX0000000000}";
    let result = extract_block4(input);
    assert!(result.is_err());
}

#[test]
fn test_remove_trailing_crlf() {
    let mut s = String::from("test\r\n");
    remove_trailing_crlf(&mut s);
    assert_eq!(s, "test");

    let mut s2 = String::from("test");
    remove_trailing_crlf(&mut s2);
    assert_eq!(s2, "test");
}

#[test]
fn test_finalize_mt_string() {
    let result = finalize_mt_string(String::from("test\r\n"), true);
    assert_eq!(result, "test-");

    let result2 = finalize_mt_string(String::from("test\r\n"), false);
    assert_eq!(result2, "test");
}

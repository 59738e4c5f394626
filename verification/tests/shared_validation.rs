use swift_mt_message::shared_validation::{date_formats, get_currency_decimals, is_valid_bic_structure};

#[test]
fn test_currency_decimals() {
    assert_eq!(get_currency_decimals("USD"), 2);
    assert_eq!(get_currency_decimals("EUR"), 2);
    assert_eq!(get_currency_decimals("JPY"), 0);
    assert_eq!(get_currency_decimals("BHD"), 3);
    assert_eq!(get_currency_decimals("XYZ"), 2); // Unknown defaults to 2
}

#[test]
fn test_bic_validation() {
    assert!(is_valid_bic_structure("DEUTDEFF"));
    assert!(is_valid_bic_structure("DEUTDEFFXXX"));
    assert!(!is_valid_bic_structure("DEUT")); // Too short
    assert!(!is_valid_bic_structure("DEUTDEFFXXXX")); // Wrong length
    assert!(!is_valid_bic_structure("DEU1DEFF")); // Number in bank code
    assert!(!is_valid_bic_structure("DEUTZZFF")); // Invalid country
}

#[test]
fn test_date_validation() {
    assert!(date_formats::is_valid_yymmdd("240315"));
    assert!(!date_formats::is_valid_yymmdd("241315")); // Invalid month
    assert!(!date_formats::is_valid_yymmdd("240332")); // Invalid day

    assert!(date_formats::is_valid_yyyymmdd("20240315"));
    assert!(!date_formats::is_valid_yyyymmdd("20241315")); // Invalid month
}

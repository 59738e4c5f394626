use swift_mt_message::utils::{get_field_tag_for_mt, is_numbered_field, map_variant_to_numbered};

#[test]
fn test_get_field_tag_for_mt() {
    assert_eq!(get_field_tag_for_mt("50"), "50");
    assert_eq!(get_field_tag_for_mt("50#1"), "50");
    assert_eq!(get_field_tag_for_mt("50#2"), "50");
    assert_eq!(get_field_tag_for_mt("32A#1"), "32A");
    assert_eq!(get_field_tag_for_mt("34F#10"), "34F");

    assert_eq!(get_field_tag_for_mt("20"), "20");
    assert_eq!(get_field_tag_for_mt("32A"), "32A");
    assert_eq!(get_field_tag_for_mt("59F"), "59F");
}

#[test]
fn numbered_fields_and_variants() {
    assert!(is_numbered_field("50#1"));
    assert!(!is_numbered_field("50K"));
    assert_eq!(map_variant_to_numbered("50", Some("K"), 0), "50#1");
    assert_eq!(map_variant_to_numbered("50", None, 1), "50#2");
    assert_eq!(map_variant_to_numbered("50", Some("K"), 2), "50K");
    assert_eq!(map_variant_to_numbered("59", None, 0), "59");
}

use swift_mt_message::field_map::FieldMap;
use swift_mt_message::parser::sequence_parser::{
    get_sequence_config, parse_repetitive_sequence, reconstruct_block4_from_fields,
    split_into_sequences, SequenceConfig,
};
use swift_mt_message::messages::mt101::MT101;

fn insert(map: &mut FieldMap, tag: &str, value: &str, pos: usize) {
    let t: Vec<char> = tag.chars().collect();
    map.insert(&t, value.to_string(), pos);
}

#[test]
fn test_sequence_splitting() {
    let mut fields = FieldMap::new();

    insert(&mut fields, "20", "REF123", 100);
    insert(&mut fields, "30", "240722", 200);
    insert(&mut fields, "21", "TRANS1", 300);
    insert(&mut fields, "21", "TRANS2", 500);
    insert(&mut fields, "32B", "USD1000", 350);
    insert(&mut fields, "32B", "USD2000", 550);
    insert(&mut fields, "19", "USD3000", 600);

    let config = SequenceConfig {
        sequence_b_marker: "21".to_string(),
        sequence_c_fields: vec!["19".to_string()],
        has_sequence_c: true,
    };

    let sequences = split_into_sequences(&fields, &config).unwrap();

    assert_eq!(sequences.sequence_a.len(), 2);
    assert_eq!(sequences.sequence_b.len(), 2);
    assert_eq!(sequences.sequence_c.len(), 1);
}

#[test]
fn sequence_a_fields_stay_in_a_and_order_is_by_position() {
    let mut fields = FieldMap::new();
    insert(&mut fields, "21", "T1", 10);
    insert(&mut fields, "20", "REF", 5);
    insert(&mut fields, "72", "INFO", 20);
    insert(&mut fields, "32B", "USD1", 15);
    let config = SequenceConfig::default();
    let s = split_into_sequences(&fields, &config).unwrap();
    assert_eq!(s.sequence_a.values("20"), Some(vec!["REF".to_string()]));
    assert_eq!(s.sequence_a.values("72"), Some(vec!["INFO".to_string()]));
    assert_eq!(s.sequence_b.values("21"), Some(vec!["T1".to_string()]));
    assert_eq!(s.sequence_b.values("32B"), Some(vec!["USD1".to_string()]));
    assert!(s.sequence_c.is_empty());
}

#[test]
fn without_marker_everything_is_sequence_a() {
    let mut fields = FieldMap::new();
    insert(&mut fields, "20", "REF", 1);
    insert(&mut fields, "32B", "USD1", 2);
    let s = split_into_sequences(&fields, &get_sequence_config("MT104")).unwrap();
    assert_eq!(s.sequence_a.len(), 2);
    assert!(s.sequence_b.is_empty());
    assert!(s.sequence_c.is_empty());
}

#[test]
fn marker_23_also_opens_on_25() {
    let mut fields = FieldMap::new();
    insert(&mut fields, "20", "REF", 1);
    insert(&mut fields, "25", "ACC", 2);
    insert(&mut fields, "30", "DATE", 3);
    let config = SequenceConfig {
        sequence_b_marker: "23".to_string(),
        sequence_c_fields: vec![],
        has_sequence_c: false,
    };
    let s = split_into_sequences(&fields, &config).unwrap();
    assert_eq!(s.sequence_a.len(), 1);
    assert_eq!(s.sequence_b.len(), 2);
}

#[test]
fn sequence_c_starts_after_last_transaction_end() {
    let mut fields = FieldMap::new();
    insert(&mut fields, "20", "REF", 1);
    insert(&mut fields, "21", "T1", 2);
    insert(&mut fields, "32B", "USD1", 3);
    insert(&mut fields, "59", "BENEF", 4);
    insert(&mut fields, "32B", "USD9", 5);
    insert(&mut fields, "19", "USD10", 6);
    let s = split_into_sequences(&fields, &get_sequence_config("MT104")).unwrap();
    assert_eq!(s.sequence_b.values("32B"), Some(vec!["USD1".to_string()]));
    assert_eq!(s.sequence_c.values("32B"), Some(vec!["USD9".to_string()]));
    assert_eq!(s.sequence_c.values("19"), Some(vec!["USD10".to_string()]));
}

#[test]
fn repetitive_items_start_at_each_marker() {
    let mut fields = FieldMap::new();
    insert(&mut fields, "20", "REF", 1);
    insert(&mut fields, "21", "T1", 2);
    insert(&mut fields, "32B", "USD1", 3);
    insert(&mut fields, "21", "T2", 4);
    insert(&mut fields, "32B", "USD2", 5);
    let items = parse_repetitive_sequence::<MT101>(&fields, "21").unwrap();
    assert_eq!(items.len(), 2);
    assert_eq!(items[0].values("21"), Some(vec!["T1".to_string()]));
    assert_eq!(items[1].values("32B"), Some(vec!["USD2".to_string()]));
    assert!(items[0].values("20").is_none());
}

#[test]
fn sequence_configs_by_message_type() {
    let c = get_sequence_config("MT104");
    assert!(c.has_sequence_c);
    assert_eq!(c.sequence_c_fields.len(), 5);
    let d = get_sequence_config("MT101");
    assert!(!d.has_sequence_c);
    assert_eq!(d.sequence_b_marker, "21");
}

#[test]
fn reconstructed_block_follows_positions_and_strips_tags() {
    let mut fields = FieldMap::new();
    insert(&mut fields, "32B", ":32B:USD100,", 3);
    insert(&mut fields, "21", "REF1", 1);
    insert(&mut fields, "50K", ":50K:/ACC\nNAME", 2);
    insert(&mut fields, "21", "REF2", 5);
    let text = reconstruct_block4_from_fields(&fields);
    assert_eq!(text, ":21:REF1\n:50K:/ACC\nNAME\n:32B:USD100,\n:21:REF2\n");
}

#[test]
fn reconstructed_block_of_empty_map_is_empty() {
    let fields = FieldMap::new();
    assert_eq!(reconstruct_block4_from_fields(&fields), "");
}

use swift_mt_message::errors::ValidationError;
use swift_mt_message::validation::{
    tally_rules, unsupported_type_result, validation_rules_for, RuleOutcome, RuleVerdict,
};

fn outcome(id: Option<&str>, verdict: RuleVerdict) -> RuleOutcome {
    RuleOutcome { id: id.map(|s| s.to_string()), description: Some("desc".to_string()), verdict }
}

#[test]
fn verdicts_make_errors_and_warnings() {
    let outcomes = vec![
        outcome(Some("C1"), RuleVerdict::Passed),
        outcome(Some("C2"), RuleVerdict::Failed),
        outcome(None, RuleVerdict::NotBoolean { result: "Number(1)".to_string() }),
        outcome(None, RuleVerdict::EvaluationError { message: "boom".to_string() }),
        outcome(Some("C5"), RuleVerdict::NoCondition),
    ];
    let r = tally_rules(&outcomes);
    assert!(!r.is_valid);
    assert_eq!(r.errors.len(), 2);
    match &r.errors[0] {
        ValidationError::BusinessRuleValidation { rule_name, message } => {
            assert_eq!(rule_name, "C2");
            assert_eq!(message, "Business rule validation failed: C2 - desc");
        }
        _ => panic!("business rule error expected"),
    }
    match &r.errors[1] {
        ValidationError::BusinessRuleValidation { rule_name, message } => {
            assert_eq!(rule_name, "RULE_3");
            assert_eq!(message, "JSONLogic evaluation error for rule RULE_3: boom");
        }
        _ => panic!("business rule error expected"),
    }
    assert_eq!(
        r.warnings,
        vec![
            "Rule RULE_2 returned non-boolean value: Number(1)".to_string(),
            "Rule C5 has no condition".to_string()
        ]
    );
}

#[test]
fn all_passed_is_valid() {
    let r = tally_rules(&vec![outcome(Some("A"), RuleVerdict::Passed)]);
    assert!(r.is_valid);
    assert!(r.errors.is_empty());
    assert!(r.warnings.is_empty());
}

#[test]
fn rules_text_by_type() {
    assert!(validation_rules_for("103").unwrap().contains("rules"));
    assert!(validation_rules_for("999").is_none());
    let r = unsupported_type_result("999");
    assert!(!r.is_valid);
    match &r.errors[0] {
        ValidationError::BusinessRuleValidation { rule_name, message } => {
            assert_eq!(rule_name, "UNSUPPORTED_MESSAGE_TYPE");
            assert_eq!(message, "No validation rules defined for message type 999");
        }
        _ => panic!("business rule error expected"),
    }
}

fn parsed_mt199() -> swift_mt_message::swift_message::SwiftMessage<swift_mt_message::messages::mt199::MT199> {
    let raw = "{1:F01BANKDEFFAXXX0123456789}{2:I199BANKGB2LXXXXN}{4:\r\n:20:REF123\r\n:79:HELLO \"WORLD\"\r\n-}";
    swift_mt_message::parser::SwiftParser::parse::<swift_mt_message::messages::mt199::MT199>(raw).unwrap()
}

#[test]
fn validation_context_holds_fields_constants_and_message_context() {
    let m = parsed_mt199();
    let data = m.validation_context("{\"LIMIT\":5}");
    assert_eq!(
        data,
        "{\"message_type\":\"199\",\"fields\":{\"20\":\"REF123\",\"79\":\"HELLO \\\"WORLD\\\"\"},\"LIMIT\":5,\
\"message_context\":{\"message_type\":\"199\",\"sender_country\":\"DE\",\"receiver_country\":\"GB\",\
\"sender_bic\":\"BANKDEFFAXXX\",\"receiver_bic\":\"BANKGB2LXXXX\",\"message_priority\":\"N\",\
\"delivery_monitoring\":\"3\"}}"
    );
    let value: serde_json::Value = serde_json::from_str(&data).unwrap();
    assert_eq!(value["message_context"]["sender_country"], "DE");
    let empty = m.validation_context("{}");
    assert!(!empty.contains("LIMIT"));
}

#[test]
fn validate_message_without_conditions_is_valid() {
    let m = parsed_mt199();
    let r = m.validate();
    assert!(r.is_valid);
    assert!(r.errors.is_empty());
    assert_eq!(r.warnings.len(), 5);
    assert_eq!(r.warnings[0], "Rule F20 has no condition");
}

#[test]
fn validate_evaluates_conditions_of_mt103() {
    let raw = "{1:F01BANKDEFFAXXX0123456789}{2:I103BANKGB2LXXXXN}{4:\r\n:20:REF123\r\n:23B:CRED\r\n:32A:240101EUR1000,00\r\n:50K:/123\r\nJOHN\r\n:59:/456\r\nJANE\r\n:71A:SHA\r\n-}";
    let m = swift_mt_message::parser::SwiftParser::parse::<swift_mt_message::messages::mt103::MT103>(raw).unwrap();
    let r = m.validate();
    assert_eq!(r.is_valid, r.errors.is_empty());
    for e in &r.errors {
        let text = format!("{e:?}");
        assert!(!text.contains("JSON_PARSE") && !text.contains("RULES_FORMAT"));
    }
}

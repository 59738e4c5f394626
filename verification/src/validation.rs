//! Message validation against the JSONLogic rules of its type: which rules
//! text applies, and how the verdicts of the rules, one per rule, make the
//! validation result.  Evaluating a rule's condition on the message is the
//! work of the JSONLogic engine; its verdicts come in as `RuleOutcome`s.

use vstd::prelude::*;
use crate::errors::{ValidationError, ValidationResult};
use crate::numeric::{decimal, usize_to_decimal};
use crate::text::{append_chars, chars_eq, from_chars, string_chars, to_chars};

verus! {

/// What evaluating the condition of one rule gave.
#[derive(Debug, Clone)]
pub enum RuleVerdict {
    /// The condition held.
    Passed,
    /// The condition did not hold.
    Failed,
    /// The condition gave a value that is not a boolean; its text.
    NotBoolean { result: String },
    /// The engine could not evaluate the condition; its message.
    EvaluationError { message: String },
    /// The rule has no condition.
    NoCondition,
}

/// One rule of the rules text: its id and description, where it has them,
/// and the verdict on its condition.
#[derive(Debug, Clone)]
pub struct RuleOutcome {
    pub id: Option<String>,
    pub description: Option<String>,
    pub verdict: RuleVerdict,
}

/// The id of the rule at `index`: its own, or `RULE_<index>`.
pub open spec fn rule_id(o: RuleOutcome, index: nat) -> Seq<char> {
    match o.id {
        Some(s) => s@,
        None => "RULE_"@ + decimal(index),
    }
}

/// The description of a rule, or "No description".
pub open spec fn rule_description(o: RuleOutcome) -> Seq<char> {
    match o.description {
        Some(s) => s@,
        None => "No description"@,
    }
}

/// An error, as the specifications see it: the rule's name and the message.
pub type RuleError = (Seq<char>, Seq<char>);

/// The errors and warnings that the verdicts give, rule by rule.
pub open spec fn tally(outcomes: Seq<RuleOutcome>) -> (Seq<RuleError>, Seq<Seq<char>>)
    decreases outcomes.len(),
{
    if outcomes.len() == 0 {
        (Seq::empty(), Seq::empty())
    } else {
        let (errs, warns) = tally(outcomes.drop_last());
        let o = outcomes.last();
        let id = rule_id(o, (outcomes.len() - 1) as nat);
        match o.verdict {
            RuleVerdict::Passed => (errs, warns),
            RuleVerdict::Failed => (
                errs.push(
                    (id, "Business rule validation failed: "@ + id + " - "@ + rule_description(o)),
                ),
                warns,
            ),
            RuleVerdict::NotBoolean { result } => (
                errs,
                warns.push("Rule "@ + id + " returned non-boolean value: "@ + result@),
            ),
            RuleVerdict::EvaluationError { message } => (
                errs.push((id, "JSONLogic evaluation error for rule "@ + id + ": "@ + message@)),
                warns,
            ),
            RuleVerdict::NoCondition => (errs, warns.push("Rule "@ + id + " has no condition"@)),
        }
    }
}

/// Each rule gives at most one error or warning, and a rule that passed
/// gives neither: the verdicts of passing rules change nothing.
pub proof fn lemma_tally_counts(outcomes: Seq<RuleOutcome>)
    ensures
        tally(outcomes).0.len() + tally(outcomes).1.len() <= outcomes.len(),
        (forall|i: int| 0 <= i < outcomes.len() ==> (#[trigger] outcomes[i]).verdict is Passed) ==> (
        tally(outcomes).0.len() == 0 && tally(outcomes).1.len() == 0),
    decreases outcomes.len(),
{
    if outcomes.len() > 0 {
        lemma_tally_counts(outcomes.drop_last());
        if forall|i: int| 0 <= i < outcomes.len() ==> (#[trigger] outcomes[i]).verdict is Passed {
            assert forall|i: int| 0 <= i < outcomes.drop_last().len() implies (
            #[trigger] outcomes.drop_last()[i]).verdict is Passed by {
                assert(outcomes.drop_last()[i] == outcomes[i]);
            }
            assert(outcomes.last().verdict is Passed);
        }
    }
}

/// `e` is the business rule error of rule `name` with `message`.
pub open spec fn rule_error_is(e: ValidationError, err: RuleError) -> bool {
    e matches ValidationError::BusinessRuleValidation { rule_name, message } && rule_name@
        == err.0 && message@ == err.1
}

/// The errors of `v` are those of `errs`, in order.
pub open spec fn errors_are(v: Seq<ValidationError>, errs: Seq<RuleError>) -> bool {
    v.len() == errs.len() && forall|i: int| 0 <= i < v.len() ==> rule_error_is(v[i], errs[i])
}

/// The text `a + b`.
fn cat(a: &Vec<char>, b: &str) -> (r: Vec<char>)
    ensures
        r@ == a@ + b@,
{
    let mut r: Vec<char> = Vec::new();
    append_chars(&mut r, a);
    append_chars(&mut r, &to_chars(b));
    assert(r@ =~= a@ + b@);
    r
}

/// The text `a + b`.
fn cat_chars(a: &Vec<char>, b: &Vec<char>) -> (r: Vec<char>)
    ensures
        r@ == a@ + b@,
{
    let mut r: Vec<char> = Vec::new();
    append_chars(&mut r, a);
    append_chars(&mut r, b);
    assert(r@ =~= a@ + b@);
    r
}

/// The validation result of the verdicts on the rules, in order: a failed
/// rule or one that could not be evaluated is an error; a rule that gave
/// no boolean, or has no condition, is a warning.
pub fn tally_rules(outcomes: &Vec<RuleOutcome>) -> (r: ValidationResult)
    ensures
        errors_are(r.errors@, tally(outcomes@).0),
        r.warnings@.map_values(|w: String| w@) == tally(outcomes@).1,
        r.is_valid == (tally(outcomes@).0.len() == 0),
{
    let mut errors: Vec<ValidationError> = Vec::new();
    let mut warnings: Vec<String> = Vec::new();
    let mut i: usize = 0;
    while i < outcomes.len()
        invariant
            i <= outcomes.len(),
            errors_are(errors@, tally(outcomes@.take(i as int)).0),
            warnings@.map_values(|w: String| w@) == tally(outcomes@.take(i as int)).1,
        decreases outcomes.len() - i,
    {
        let o = &outcomes[i];
        proof {
            assert(outcomes@.take(i + 1).drop_last() =~= outcomes@.take(i as int));
            assert(outcomes@.take(i + 1).last() == *o);
        }
        let id: Vec<char> = match &o.id {
            Some(s) => string_chars(s),
            None => cat_chars(&to_chars("RULE_"), &usize_to_decimal(i)),
        };
        assert(id@ == rule_id(*o, i as nat));
        let ghost before_e = errors@;
        let ghost before_w = warnings@;
        match &o.verdict {
            RuleVerdict::Passed => {},
            RuleVerdict::Failed => {
                let desc: Vec<char> = match &o.description {
                    Some(d) => string_chars(d),
                    None => to_chars("No description"),
                };
                let m = cat_chars(&cat(&cat_chars(&cat(&Vec::new(), "Business rule validation failed: "), &id), " - "), &desc);
                errors.push(ValidationError::BusinessRuleValidation {
                    rule_name: from_chars(&id),
                    message: from_chars(&m),
                });
                proof {
                    assert(Seq::<char>::empty() + "Business rule validation failed: "@
                        =~= "Business rule validation failed: "@);
                    assert(errors@ =~= before_e.push(errors@.last()));
                }
            },
            RuleVerdict::NotBoolean { result } => {
                let w = cat_chars(&cat(&cat_chars(&cat(&Vec::new(), "Rule "), &id), " returned non-boolean value: "), &string_chars(result));
                warnings.push(from_chars(&w));
                proof {
                    assert(Seq::<char>::empty() + "Rule "@ =~= "Rule "@);
                    assert(warnings@.map_values(|x: String| x@) =~= before_w.map_values(
                        |x: String| x@,
                    ).push(w@));
                }
            },
            RuleVerdict::EvaluationError { message } => {
                let m = cat_chars(&cat(&cat_chars(&cat(&Vec::new(), "JSONLogic evaluation error for rule "), &id), ": "), &string_chars(message));
                errors.push(ValidationError::BusinessRuleValidation {
                    rule_name: from_chars(&id),
                    message: from_chars(&m),
                });
                proof {
                    assert(Seq::<char>::empty() + "JSONLogic evaluation error for rule "@
                        =~= "JSONLogic evaluation error for rule "@);
                    assert(errors@ =~= before_e.push(errors@.last()));
                }
            },
            RuleVerdict::NoCondition => {
                let w = cat(&cat_chars(&cat(&Vec::new(), "Rule "), &id), " has no condition");
                warnings.push(from_chars(&w));
                proof {
                    assert(Seq::<char>::empty() + "Rule "@ =~= "Rule "@);
                    assert(warnings@.map_values(|x: String| x@) =~= before_w.map_values(
                        |x: String| x@,
                    ).push(w@));
                }
            },
        }
        i = i + 1;
    }
    assert(outcomes@.take(outcomes.len() as int) =~= outcomes@);
    let is_valid = errors.len() == 0;
    ValidationResult { is_valid, errors, warnings }
}

/// The result of a message type with no rules text: one error.
pub open spec fn unsupported_result_is(r: ValidationResult, message_type: Seq<char>) -> bool {
    &&& !r.is_valid
    &&& r.warnings@.len() == 0
    &&& errors_are(
        r.errors@,
        seq![
            ("UNSUPPORTED_MESSAGE_TYPE"@, "No validation rules defined for message type "@
                + message_type),
        ],
    )
}

/// The validation result of a message type that has no rules.
pub fn unsupported_type_result(message_type: &str) -> (r: ValidationResult)
    ensures
        unsupported_result_is(r, message_type@),
{
    let m = cat(&to_chars("No validation rules defined for message type "), message_type);
    let e = ValidationError::BusinessRuleValidation {
        rule_name: "UNSUPPORTED_MESSAGE_TYPE".to_string(),
        message: from_chars(&m),
    };
    ValidationResult::with_error(e)
}


/// The rules text of a message type, if it has one.
pub open spec fn rules_text(message_type: Seq<char>) -> Option<Seq<char>> {
    if message_type == "101"@ {
        Some(crate::messages::mt101::VALIDATION_RULES@)
    } else if message_type == "103"@ {
        Some(crate::messages::mt103::VALIDATION_RULES@)
    } else if message_type == "104"@ {
        Some(crate::messages::mt104::VALIDATION_RULES@)
    } else if message_type == "107"@ {
        Some(crate::messages::mt107::VALIDATION_RULES@)
    } else if message_type == "110"@ {
        Some(crate::messages::mt110::VALIDATION_RULES@)
    } else if message_type == "111"@ {
        Some(crate::messages::mt111::VALIDATION_RULES@)
    } else if message_type == "112"@ {
        Some(crate::messages::mt112::VALIDATION_RULES@)
    } else if message_type == "190"@ {
        Some(crate::messages::mt190::VALIDATION_RULES@)
    } else if message_type == "191"@ {
        Some(crate::messages::mt191::VALIDATION_RULES@)
    } else if message_type == "192"@ {
        Some(crate::messages::mt192::VALIDATION_RULES@)
    } else if message_type == "196"@ {
        Some(crate::messages::mt196::VALIDATION_RULES@)
    } else if message_type == "199"@ {
        Some(crate::messages::mt199::VALIDATION_RULES@)
    } else if message_type == "202"@ {
        Some(crate::messages::mt202::VALIDATION_RULES@)
    } else if message_type == "205"@ {
        Some(crate::messages::mt205::VALIDATION_RULES@)
    } else if message_type == "210"@ {
        Some(crate::messages::mt210::VALIDATION_RULES@)
    } else if message_type == "290"@ {
        Some(crate::messages::mt290::VALIDATION_RULES@)
    } else if message_type == "291"@ {
        Some(crate::messages::mt291::VALIDATION_RULES@)
    } else if message_type == "292"@ {
        Some(crate::messages::mt292::VALIDATION_RULES@)
    } else if message_type == "296"@ {
        Some(crate::messages::mt296::VALIDATION_RULES@)
    } else if message_type == "299"@ {
        Some(crate::messages::mt299::VALIDATION_RULES@)
    } else if message_type == "900"@ {
        Some(crate::messages::mt900::VALIDATION_RULES@)
    } else if message_type == "910"@ {
        Some(crate::messages::mt910::VALIDATION_RULES@)
    } else if message_type == "920"@ {
        Some(crate::messages::mt920::VALIDATION_RULES@)
    } else if message_type == "940"@ {
        Some(crate::messages::mt940::VALIDATION_RULES@)
    } else if message_type == "941"@ {
        Some(crate::messages::mt941::VALIDATION_RULES@)
    } else if message_type == "942"@ {
        Some(crate::messages::mt942::VALIDATION_RULES@)
    } else {
        None
    }
}

/// The rules text of a message type, if it has one.
pub fn validation_rules_for(message_type: &str) -> (r: Option<&'static str>)
    ensures
        match rules_text(message_type@) {
            Some(t) => r matches Some(s) && s@ == t,
            None => r is None,
        },
{
    let t = to_chars(message_type);
    if chars_eq(&t, &to_chars("101")) {
        return Some(crate::messages::mt101::MT101::validate());
    }
    if chars_eq(&t, &to_chars("103")) {
        return Some(crate::messages::mt103::MT103::validate());
    }
    if chars_eq(&t, &to_chars("104")) {
        return Some(crate::messages::mt104::MT104::validate());
    }
    if chars_eq(&t, &to_chars("107")) {
        return Some(crate::messages::mt107::MT107::validate());
    }
    if chars_eq(&t, &to_chars("110")) {
        return Some(crate::messages::mt110::MT110::validate());
    }
    if chars_eq(&t, &to_chars("111")) {
        return Some(crate::messages::mt111::MT111::validate());
    }
    if chars_eq(&t, &to_chars("112")) {
        return Some(crate::messages::mt112::MT112::validate());
    }
    if chars_eq(&t, &to_chars("190")) {
        return Some(crate::messages::mt190::MT190::validate());
    }
    if chars_eq(&t, &to_chars("191")) {
        return Some(crate::messages::mt191::MT191::validate());
    }
    if chars_eq(&t, &to_chars("192")) {
        return Some(crate::messages::mt192::MT192::validate());
    }
    if chars_eq(&t, &to_chars("196")) {
        return Some(crate::messages::mt196::MT196::validate());
    }
    if chars_eq(&t, &to_chars("199")) {
        return Some(crate::messages::mt199::MT199::validate());
    }
    if chars_eq(&t, &to_chars("202")) {
        return Some(crate::messages::mt202::MT202::validate());
    }
    if chars_eq(&t, &to_chars("205")) {
        return Some(crate::messages::mt205::MT205::validate());
    }
    if chars_eq(&t, &to_chars("210")) {
        return Some(crate::messages::mt210::MT210::validate());
    }
    if chars_eq(&t, &to_chars("290")) {
        return Some(crate::messages::mt290::MT290::validate());
    }
    if chars_eq(&t, &to_chars("291")) {
        return Some(crate::messages::mt291::MT291::validate());
    }
    if chars_eq(&t, &to_chars("292")) {
        return Some(crate::messages::mt292::MT292::validate());
    }
    if chars_eq(&t, &to_chars("296")) {
        return Some(crate::messages::mt296::MT296::validate());
    }
    if chars_eq(&t, &to_chars("299")) {
        return Some(crate::messages::mt299::MT299::validate());
    }
    if chars_eq(&t, &to_chars("900")) {
        return Some(crate::messages::mt900::MT900::validate());
    }
    if chars_eq(&t, &to_chars("910")) {
        return Some(crate::messages::mt910::MT910::validate());
    }
    if chars_eq(&t, &to_chars("920")) {
        return Some(crate::messages::mt920::MT920::validate());
    }
    if chars_eq(&t, &to_chars("940")) {
        return Some(crate::messages::mt940::MT940::validate());
    }
    if chars_eq(&t, &to_chars("941")) {
        return Some(crate::messages::mt941::MT941::validate());
    }
    if chars_eq(&t, &to_chars("942")) {
        return Some(crate::messages::mt942::MT942::validate());
    }
    None
}


// ---------------------------------------------------------------------------
// Reading the rules text and evaluating the conditions
// ---------------------------------------------------------------------------

/// A rule as the rules text gives it: its id and description where they are
/// strings, and its condition, as JSON text, where it has one.
#[derive(Debug, Clone)]
pub struct RuleSpec {
    pub id: Option<String>,
    pub description: Option<String>,
    pub condition: Option<String>,
}

/// A text that may be absent, as the specifications see it.
pub open spec fn opt_text(o: Option<String>) -> Option<Seq<char>> {
    match o {
        Some(s) => Some(s@),
        None => None,
    }
}

/// A rule, as the specifications see it: id, description, condition.
pub type RuleSpecView = (Option<Seq<char>>, Option<Seq<char>>, Option<Seq<char>>);

impl View for RuleSpec {
    type V = RuleSpecView;

    open spec fn view(&self) -> RuleSpecView {
        (opt_text(self.id), opt_text(self.description), opt_text(self.condition))
    }
}

/// What a rules text holds, as the specifications see it: its rules and its
/// constants object as JSON text; or, where it is no rules text, the message
/// of the JSON error (`Some`) or that it has no `rules` array (`None`).
pub type RulesView = Result<(Seq<RuleSpecView>, Seq<char>), Option<Seq<char>>>;

/// The views of read rules.
pub open spec fn rules_read_view(r: Result<(Vec<RuleSpec>, String), Option<String>>) -> RulesView {
    match r {
        Ok((v, c)) => Ok((v@.map_values(|x: RuleSpec| x@), c@)),
        Err(e) => Err(opt_text(e)),
    }
}

/// What `serde_json` reads from a rules text.
pub uninterp spec fn rules_of(text: Seq<char>) -> RulesView;

/// Read a rules text with `serde_json::from_str`: the `rules` array, each
/// rule's string `id` and `description` and its `condition` written back as
/// JSON text, and the `constants` object as JSON text (`{}` where there is
/// none). Its result is named `rules_of`; it depends on the text alone.
#[verifier::external_body]
pub(crate) fn read_rules(text: &str) -> (r: Result<(Vec<RuleSpec>, String), Option<String>>)
    ensures
        rules_read_view(r) == rules_of(text@),
{
    let v: serde_json::Value = serde_json::from_str(text).map_err(|e| Some(e.to_string()))?;
    let rules = v.get("rules").and_then(serde_json::Value::as_array).ok_or(None)?;
    let pick = |r: &serde_json::Value, k: &str| r.get(k).and_then(serde_json::Value::as_str).map(String::from);
    let specs = rules.iter().map(|r| RuleSpec {
        id: pick(r, "id"),
        description: pick(r, "description"),
        condition: r.get("condition").map(|c| c.to_string()),
    }).collect();
    let constants = v.get("constants").filter(|c| c.is_object()).map_or("{}".to_string(), |c| c.to_string());
    Ok((specs, constants))
}

/// What the JSONLogic engine answers for a condition: a boolean, another
/// value (its text), or an error (its message).
#[derive(Debug, Clone)]
pub enum EngineReply {
    Boolean(bool),
    Other(String),
    Error(String),
}

/// Evaluate a JSONLogic condition on a JSON context with
/// `datalogic_rs::DataLogic::evaluate_json`. The answer may depend on the
/// time (the `now` operator), so nothing is promised of it.
#[verifier::external_body]
fn evaluate_condition(condition: &str, context: &str) -> (r: EngineReply) {
    match datalogic_rs::DataLogic::new().evaluate_json(condition, context) {
        Ok(x) => match x.as_bool() {
            Some(b) => EngineReply::Boolean(b),
            None => EngineReply::Other(format!("{x:?}")),
        },
        Err(e) => EngineReply::Error(e.to_string()),
    }
}

/// The verdict that an answer of the engine gives.
pub open spec fn verdict_of(a: EngineReply) -> RuleVerdict {
    match a {
        EngineReply::Boolean(b) => if b {
            RuleVerdict::Passed
        } else {
            RuleVerdict::Failed
        },
        EngineReply::Other(t) => RuleVerdict::NotBoolean { result: t },
        EngineReply::Error(m) => RuleVerdict::EvaluationError { message: m },
    }
}

/// The verdict that an answer of the engine gives.
pub fn verdict_from(a: EngineReply) -> (v: RuleVerdict)
    ensures
        v == verdict_of(a),
{
    match a {
        EngineReply::Boolean(b) => if b {
            RuleVerdict::Passed
        } else {
            RuleVerdict::Failed
        },
        EngineReply::Other(t) => RuleVerdict::NotBoolean { result: t },
        EngineReply::Error(m) => RuleVerdict::EvaluationError { message: m },
    }
}

/// The outcome of a rule keeps its id and description, and has a verdict
/// from the engine exactly where the rule has a condition.
pub open spec fn outcome_fits(o: RuleOutcome, r: RuleSpecView) -> bool {
    &&& opt_text(o.id) == r.0
    &&& opt_text(o.description) == r.1
    &&& (o.verdict is NoCondition <==> r.2 is None)
}

/// The outcomes fit the rules, one for one.
pub open spec fn outcomes_fit(os: Seq<RuleOutcome>, rs: Seq<RuleSpecView>) -> bool {
    os.len() == rs.len() && forall|i: int| 0 <= i < os.len() ==> outcome_fits(#[trigger] os[i], rs[i])
}

/// Evaluate the condition of each rule on the context: one outcome per rule,
/// with its id and description, and the engine's verdict where the rule has
/// a condition.
pub fn rule_outcomes(rules: &Vec<RuleSpec>, context: &str) -> (r: Vec<RuleOutcome>)
    ensures
        outcomes_fit(r@, rules@.map_values(|x: RuleSpec| x@)),
{
    let ghost rv = rules@.map_values(|x: RuleSpec| x@);
    let mut out: Vec<RuleOutcome> = Vec::new();
    let mut i: usize = 0;
    while i < rules.len()
        invariant
            i <= rules.len(),
            rv == rules@.map_values(|x: RuleSpec| x@),
            out@.len() == i,
            forall|k: int| 0 <= k < i ==> outcome_fits(#[trigger] out@[k], rv[k]),
        decreases rules.len() - i,
    {
        let verdict = match &rules[i].condition {
            Some(c) => verdict_from(evaluate_condition(c.as_str(), context)),
            None => RuleVerdict::NoCondition,
        };
        let o = RuleOutcome {
            id: rules[i].id.clone(),
            description: rules[i].description.clone(),
            verdict,
        };
        proof {
            assert(rv[i as int] == rules@[i as int]@);
        }
        out.push(o);
        i = i + 1;
    }
    out
}

/// The result of a rules text that does not read: one error.
pub open spec fn unread_result_is(r: ValidationResult, e: Option<Seq<char>>) -> bool {
    &&& !r.is_valid
    &&& r.warnings@.len() == 0
    &&& errors_are(
        r.errors@,
        match e {
            Some(m) => seq![("JSON_PARSE"@, "Failed to parse validation rules JSON: "@ + m)],
            None => seq![("RULES_FORMAT"@, "Validation rules must contain a 'rules' array"@)],
        },
    )
}

/// The result for a rules text that does not read: a JSON error, with its
/// message (`Some`), or a text without a `rules` array (`None`).
pub fn unread_result(e: Option<String>) -> (r: ValidationResult)
    ensures
        unread_result_is(r, opt_text(e)),
{
    let (name, message) = match e {
        Some(m) => {
            let full = cat(&to_chars("Failed to parse validation rules JSON: "), m.as_str());
            ("JSON_PARSE".to_string(), from_chars(&full))
        },
        None => ("RULES_FORMAT".to_string(), "Validation rules must contain a 'rules' array".to_string()),
    };
    let r = ValidationResult::with_error(ValidationError::BusinessRuleValidation { rule_name: name, message });
    proof {
        reveal_strlit("JSON_PARSE");
        reveal_strlit("RULES_FORMAT");
        reveal_strlit("Failed to parse validation rules JSON: ");
        reveal_strlit("Validation rules must contain a 'rules' array");
    }
    r
}

/// The result that the verdicts make: its errors and warnings are those of
/// the tally, and it is valid exactly where there is no error.
pub open spec fn tallied(r: ValidationResult, os: Seq<RuleOutcome>) -> bool {
    &&& errors_are(r.errors@, tally(os).0)
    &&& r.warnings@.map_values(|w: String| w@) == tally(os).1
    &&& r.is_valid == (tally(os).0.len() == 0)
}

} // verus!

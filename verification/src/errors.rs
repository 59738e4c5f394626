//! Errors of parsing and validation.

use vstd::prelude::*;

verus! {

/// A validation failure identified by a SWIFT error code.
#[derive(Debug, Clone)]
pub struct SwiftValidationError {
    /// The SWIFT error code, e.g. `T01`
    pub code: String,
    /// The field or element that failed
    pub field: String,
    /// The value found
    pub value: String,
    /// What was expected
    pub expected: String,
    /// A description of the failure
    pub message: String,
}

/// A network validation error as the specifications see it: code, field,
/// value, expected form, message.
pub type ValidationErrorView = (Seq<char>, Seq<char>, Seq<char>, Seq<char>, Seq<char>);

impl View for SwiftValidationError {
    type V = ValidationErrorView;

    open spec fn view(&self) -> ValidationErrorView {
        (self.code@, self.field@, self.value@, self.expected@, self.message@)
    }
}

/// The views of a list of network validation errors.
pub open spec fn error_views(v: Seq<SwiftValidationError>) -> Seq<ValidationErrorView> {
    v.map_values(|e: SwiftValidationError| e@)
}

impl SwiftValidationError {
    /// An error of a business rule over several fields: the related fields
    /// are kept, joined by ", ", as the value.
    pub fn business_error(code: &str, field: &str, related: &Vec<String>, message: &str, expected: &str) -> (e:
        SwiftValidationError)
        ensures
            e@ == (code@, field@, crate::text::join(crate::text::string_views(related@), ", "@), expected@, message@),
    {
        let mut parts: Vec<Vec<char>> = Vec::new();
        let mut i: usize = 0;
        while i < related.len()
            invariant
                i <= related.len(),
                crate::text::views(parts@) == crate::text::string_views(related@).take(i as int),
            decreases related.len() - i,
        {
            let ghost before = crate::text::views(parts@);
            let c = crate::text::string_chars(&related[i]);
            parts.push(c);
            proof {
                let sv = crate::text::string_views(related@);
                assert(sv[i as int] == related@[i as int]@);
                assert(crate::text::views(parts@) =~= before.push(c@));
                assert(sv.take(i + 1) =~= sv.take(i as int).push(sv[i as int]));
            }
            i = i + 1;
        }
        assert(crate::text::string_views(related@).take(related.len() as int) =~= crate::text::string_views(related@));
        let value = crate::text::join_chars(&parts, &crate::text::to_chars(", "));
        SwiftValidationError {
            code: code.to_string(),
            field: field.to_string(),
            value: crate::text::from_chars(&value),
            expected: expected.to_string(),
            message: message.to_string(),
        }
    }

    /// An error with the same parts.
    pub fn copy(&self) -> (e: SwiftValidationError)
        ensures
            e@ == self@,
    {
        SwiftValidationError {
            code: self.code.clone(),
            field: self.field.clone(),
            value: self.value.clone(),
            expected: self.expected.clone(),
            message: self.message.clone(),
        }
    }

    /// An error about the content of a field.
    pub fn content_error(code: &str, field: &str, value: &str, message: &str, expected: &str) -> (e:
        SwiftValidationError)
        ensures
            e@ == (code@, field@, value@, expected@, message@),
    {
        SwiftValidationError {
            code: code.to_string(),
            field: field.to_string(),
            value: value.to_string(),
            expected: expected.to_string(),
            message: message.to_string(),
        }
    }


    /// A format error with its code, field, value, expectation and message.
    pub fn format_error(code: &str, field: &str, value: &str, expected: &str, message: &str) -> (e:
        SwiftValidationError)
        ensures
            e.code@ == code@,
            e.field@ == field@,
            e.value@ == value@,
            e.expected@ == expected@,
            e.message@ == message@,
    {
        SwiftValidationError {
            code: code.to_string(),
            field: field.to_string(),
            value: value.to_string(),
            expected: expected.to_string(),
            message: message.to_string(),
        }
    }
}

/// Errors raised while parsing a message.
#[derive(Debug, Clone)]
pub enum ParseError {
    /// The message or a part of it is not in the expected form
    InvalidFormat { message: String },
    /// A field's content is not in the expected form
    InvalidFieldFormat { field_tag: String, message: String },
    /// The block structure of the message is broken
    InvalidBlockStructure { message: String },
    /// The message is of another type than the one asked for
    WrongMessageType { expected: String, actual: String },
    /// The message type is not one that the library parses
    UnsupportedMessageType { message_type: String },
    /// A mandatory field is missing
    MissingRequiredField { field_tag: String },
    /// A validation failure with its SWIFT error code
    SwiftValidation(Box<SwiftValidationError>),
    /// A message could not be turned into another form
    SerializationError { message: String },
}

/// The outcome of a parse that collects its errors.
#[derive(Debug, Clone)]
pub enum ParseResult<T> {
    /// Parsing succeeded
    Success(T),
    /// Parsing succeeded, with errors that were tolerated
    PartialSuccess(T, Vec<ParseError>),
    /// Parsing failed with these errors
    Failure(Vec<ParseError>),
}

/// A validation error of a field or of a business rule.
#[derive(Debug, Clone)]
pub enum ValidationError {
    /// The format of a field is wrong.
    FormatValidation { field_tag: String, message: String },
    /// A field has the wrong length.
    LengthValidation { field_tag: String, expected: usize, actual: usize },
    /// A field does not match its pattern.
    PatternValidation { field_tag: String, message: String },
    /// A field has a value that is not allowed.
    ValueValidation { field_tag: String, message: String },
    /// A business rule failed.
    BusinessRuleValidation { rule_name: String, message: String },
}

/// The outcome of validating a message against its rules.
#[derive(Debug, Clone)]
pub struct ValidationResult {
    pub is_valid: bool,
    pub errors: Vec<ValidationError>,
    pub warnings: Vec<String>,
}

impl ValidationResult {
    /// A result with one error and no warnings.
    pub fn with_error(error: ValidationError) -> (r: ValidationResult)
        ensures
            !r.is_valid,
            r.errors@ == seq![error],
            r.warnings@.len() == 0,
    {
        let errors = vec![error];
        assert(errors@ =~= seq![error]);
        ValidationResult { is_valid: false, errors, warnings: Vec::new() }
    }
}

/// The text of a parse error.
pub open spec fn error_text(e: ParseError) -> Seq<char> {
    match e {
        ParseError::InvalidFormat { message } => "Invalid format: "@ + message@,
        ParseError::InvalidFieldFormat { field_tag, message } => "Invalid field format in "@
            + field_tag@ + ": "@ + message@,
        ParseError::InvalidBlockStructure { message } => "Invalid block structure: "@ + message@,
        ParseError::WrongMessageType { expected, actual } => "Wrong message type: expected "@
            + expected@ + ", got "@ + actual@,
        ParseError::UnsupportedMessageType { message_type } => "Unsupported message type: "@
            + message_type@,
        ParseError::MissingRequiredField { field_tag } => "Missing required field: "@
            + field_tag@,
        ParseError::SwiftValidation(v) => "SWIFT validation error "@ + v.code@ + ": "@
            + v.message@,
        ParseError::SerializationError { message } => "Serialization error: "@ + message@,
    }
}

/// `a` followed by `b`.
fn concat(a: &str, b: &String) -> (r: String)
    ensures
        r@ == a@ + b@,
{
    let mut c = crate::text::to_chars(a);
    crate::text::append_chars(&mut c, &crate::text::string_chars(b));
    crate::text::from_chars(&c)
}

impl ParseError {
    /// The text of the error.
    pub fn to_string(&self) -> (s: String)
        ensures
            s@ == error_text(*self),
    {
        match self {
            ParseError::InvalidFormat { message } => concat("Invalid format: ", message),
            ParseError::InvalidFieldFormat { field_tag, message } => {
                let head = concat("Invalid field format in ", field_tag);
                let tail = concat(": ", message);
                concat(head.as_str(), &tail)
            },
            ParseError::InvalidBlockStructure { message } => concat(
                "Invalid block structure: ",
                message,
            ),
            ParseError::WrongMessageType { expected, actual } => {
                let head = concat("Wrong message type: expected ", expected);
                let tail = concat(", got ", actual);
                concat(head.as_str(), &tail)
            },
            ParseError::UnsupportedMessageType { message_type } => concat(
                "Unsupported message type: ",
                message_type,
            ),
            ParseError::MissingRequiredField { field_tag } => concat(
                "Missing required field: ",
                field_tag,
            ),
            ParseError::SwiftValidation(v) => {
                let head = concat("SWIFT validation error ", &v.code);
                let tail = concat(": ", &v.message);
                concat(head.as_str(), &tail)
            },
            ParseError::SerializationError { message } => concat("Serialization error: ", message),
        }
    }
}

} // verus!

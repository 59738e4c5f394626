//! Core traits for SWIFT message types.

use vstd::prelude::*;
use crate::errors::{ParseError, ValidationResult};
use crate::message_parser::{FieldView, LayoutView, ParsedView};
use crate::parsing_utils::{mt_text, pair_views};
use crate::text::str_views;

verus! {

/// Core trait for SWIFT field types: parsing from content and writing in
/// SWIFT form.
pub trait SwiftField: Sized {
    /// What parsing `content` gives.
    spec fn parse_outcome(content: Seq<char>, r: Result<Self, ParseError>) -> bool;

    /// The field in SWIFT form, as the specifications see it.
    spec fn swift_form(&self) -> Seq<char>;

    /// The format of the field in SWIFT notation.
    spec fn format_text() -> Seq<char>;

    /// The variant letter of an enum field value; none for a simple field.
    spec fn variant(&self) -> Option<Seq<char>>;

    /// Parse field value from string representation
    fn parse(content: &str) -> (r: Result<Self, ParseError>)
        ensures
            Self::parse_outcome(content@, r),
    ;

    /// Convert field to SWIFT format string (includes `:TAG:` prefix)
    fn to_swift_string(&self) -> (s: String)
        ensures
            s@ == self.swift_form(),
    ;

    /// Validate the field; the constructors already check its format.
    fn validate(&self) -> (r: ValidationResult)
        ensures
            r.is_valid && r.errors@.len() == 0 && r.warnings@.len() == 0,
    ;

    /// The format of the field in SWIFT notation.
    fn format_spec() -> (s: &'static str)
        ensures
            s@ == Self::format_text(),
    ;

    /// Get the variant tag for enum field values; `None` for simple fields.
    fn get_variant_tag(&self) -> (r: Option<&'static str>)
        ensures
            match r {
                Some(v) => self.variant() == Some(v@),
                None => self.variant() is None,
            },
    ;
}

/// Core trait for Swift message types
///
/// This trait defines the interface for all SWIFT MT message types (MT103, MT202, etc.).
/// It provides methods for parsing, serialization, and metadata about message structure.
pub trait SwiftMessageBody: Sized {
    /// The message type identifier, as the specifications see it.
    spec fn type_code() -> Seq<char>;

    /// The layout by which the body is taken.
    spec fn layout() -> LayoutView;

    /// The fields of the message, as its layout took them.
    spec fn parsed(&self) -> ParsedView;

    /// The fields of the message in the order in which they are written.
    spec fn ordered(&self) -> Seq<FieldView>;

    /// What parsing `block4` gives.
    spec fn parse_spec(block4: Seq<char>, r: Result<Self, ParseError>) -> bool;

    /// The tags of the mandatory fields.
    spec fn required_tags() -> Seq<Seq<char>>;

    /// The tags of the optional fields.
    spec fn optional_tags() -> Seq<Seq<char>>;

    /// The message carries reject codes.
    spec fn rejected(&self) -> bool;

    /// The message carries return codes.
    spec fn returned(&self) -> bool;

    /// The message is a cover message.
    spec fn cover(&self) -> bool;

    /// The message is a straight-through-processing message.
    spec fn stp(&self) -> bool;

    /// Get the message type identifier (e.g., "103", "202", "940")
    fn message_type() -> (r: &'static str)
        ensures
            r@ == Self::type_code(),
    ;

    /// Parse message from Block 4 content
    fn parse_from_block4(block4: &str) -> (r: Result<Self, ParseError>)
        ensures
            Self::parse_spec(block4@, r),
    ;

    /// The fields of the message as (tag, content) pairs, in writing order.
    fn to_ordered_fields(&self) -> (r: Vec<(String, String)>)
        ensures
            pair_views(r@) == self.ordered(),
    ;

    /// Convert message to SWIFT MT format string (Block 4 content only)
    fn to_mt_string(&self) -> (r: String)
        ensures
            r@ == mt_text(self.ordered()),
    ;

    /// The tags of the mandatory fields.
    fn required_fields() -> (r: Vec<&'static str>)
        ensures
            str_views(r@) == Self::required_tags(),
    ;

    /// The tags of the optional fields.
    fn optional_fields() -> (r: Vec<&'static str>)
        ensures
            str_views(r@) == Self::optional_tags(),
    ;

    /// The message carries reject codes.
    fn has_reject_codes(&self) -> (b: bool)
        ensures
            b == self.rejected(),
    ;

    /// The message carries return codes.
    fn has_return_codes(&self) -> (b: bool)
        ensures
            b == self.returned(),
    ;

    /// The message is a cover message.
    fn is_cover_message(&self) -> (b: bool)
        ensures
            b == self.cover(),
    ;

    /// The message is a straight-through-processing message.
    fn is_stp_message(&self) -> (b: bool)
        ensures
            b == self.stp(),
    ;
}

} // verus!

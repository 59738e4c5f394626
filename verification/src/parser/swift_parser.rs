//! The SWIFT MT message parser: block extraction and the parsing of whole
//! messages.

use vstd::prelude::*;
use crate::blocks::{
    block4_end, block_marker, block_marker_chars, close_brace, find_matching_brace_chars,
    lemma_marker_free, lemma_marker_nested, matching_brace, nested_block, simple_block,
    text_block,
};
use crate::errors::{ParseError, ParseResult, SwiftValidationError};
use crate::headers::{ApplicationHeader, BasicHeader, Trailer, UserHeader};
use crate::parsed_message::{auto_parsed, parse_any, ParsedSwiftMessage};
use crate::swift_message::SwiftMessage;
use crate::traits::SwiftMessageBody;
use crate::numeric::usize_to_decimal;
use crate::text::{
    append_chars, chars_eq, find_char, find_exec, find_from, from_chars, lemma_find_from,
    slice_chars, string_chars, to_chars,
};

verus! {

/// The content of block `index` of `raw`: what follows the first marker of
/// the block, up to the first `}` (blocks 1 and 2), to the brace that closes
/// the block's own (blocks 3 and 5), or to `-}` (block 4).
pub open spec fn block_content(raw: Seq<char>, index: u8) -> Option<Seq<char>> {
    match find_from(raw, block_marker(index), 0) {
        None => None,
        Some(start) => {
            let cs = start + 3;
            if index == 1 || index == 2 {
                simple_block(raw, start, cs)
            } else if index == 3 || index == 5 {
                nested_block(raw, start, cs)
            } else {
                text_block(raw, start, cs)
            }
        },
    }
}

/// The view of an optional string.
pub open spec fn opt_view(o: Option<String>) -> Option<Seq<char>> {
    match o {
        Some(s) => Some(s@),
        None => None,
    }
}

/// Main parser for SWIFT MT messages
pub struct SwiftParser {}

impl SwiftParser {
    /// Create a new parser with default configuration
    pub fn new() -> (p: SwiftParser) {
        SwiftParser {  }
    }

    /// Extract a specific message block from raw SWIFT message with SWIFT validation
    pub fn extract_block(raw_message: &str, block_index: u8) -> (r: Result<Option<String>, ParseError>)
        ensures
            !(1 <= block_index <= 5) ==> (r matches Err(ParseError::SwiftValidation(e)) && e.code@
                == "T01"@),
            1 <= block_index <= 5 ==> (r matches Ok(o) && opt_view(o) == block_content(
                raw_message@,
                block_index,
            )),
    {
        if !(1 <= block_index && block_index <= 5) {
            let mut msg = to_chars("Invalid block index: ");
            let d = usize_to_decimal(block_index as usize);
            append_chars(&mut msg, &d);
            let value = from_chars(&d);
            let message = from_chars(&msg);
            let e = SwiftValidationError::format_error(
                crate::swift_error_codes::t_series::T01,
                "BLOCK_INDEX",
                value.as_str(),
                "1-5",
                message.as_str(),
            );
            proof {
                reveal_strlit("T01");
            }
            return Err(ParseError::SwiftValidation(Box::new(e)));
        }
        let raw = to_chars(raw_message);
        let marker = block_marker_chars(block_index);
        match find_exec(&raw, &marker, 0) {
            None => Ok(None),
            Some(start) => {
                proof {
                    lemma_find_from(raw@, block_marker(block_index), 0);
                    lemma_marker_free(raw@, block_index, start as int);
                    lemma_marker_nested(raw@, block_index, start as int);
                }
                let cs = start + 3;
                if block_index == 1 || block_index == 2 {
                    match find_char(&raw, '}', start) {
                        Some(e) => {
                            assert(close_brace() =~= seq!['}']);
                            Ok(Some(from_chars(&slice_chars(&raw, cs, e))))
                        },
                        None => {
                            assert(close_brace() =~= seq!['}']);
                            Ok(None)
                        },
                    }
                } else if block_index == 3 || block_index == 5 {
                    match find_matching_brace_chars(&raw, start) {
                        Some(e) => Ok(Some(from_chars(&slice_chars(&raw, cs, start + e)))),
                        None => Ok(None),
                    }
                } else {
                    let end: Vec<char> = vec!['-', '}'];
                    assert(end@ =~= block4_end());
                    match find_exec(&raw, &end, start) {
                        Some(e) => {
                            proof {
                                lemma_find_from(raw@, block4_end(), start as int);
                            }
                            Ok(Some(from_chars(&slice_chars(&raw, cs, e))))
                        },
                        None => Ok(None),
                    }
                }
            },
        }
    }

    /// Find the matching closing brace for a block that starts with an opening brace
    pub fn find_matching_brace(text: &str) -> (r: Option<usize>)
        ensures
            match r {
                Some(k) => matching_brace(text@) == Some(k as int),
                None => matching_brace(text@) is None,
            },
    {
        let t = to_chars(text);
        assert(t@.skip(0) =~= t@);
        find_matching_brace_chars(&t, 0)
    }
}

/// The content of block `i`, or nothing when the block is absent.
pub open spec fn block_or_empty(raw: Seq<char>, i: u8) -> Seq<char> {
    match block_content(raw, i) {
        Some(b) => b,
        None => Seq::empty(),
    }
}

/// What parsing a whole message as type `T` gives: the application header
/// must name a message type, and that type must be `T`'s (a mismatch is a
/// T03 validation error when `t03` is set, a `WrongMessageType` error
/// otherwise); then block 4 is parsed as `T`, and the headers are read from
/// blocks 1, 3 and 5.
pub open spec fn message_parsed<T: SwiftMessageBody>(
    raw: Seq<char>,
    r: Result<SwiftMessage<T>, ParseError>,
    t03: bool,
) -> bool {
    let b2 = block_or_empty(raw, 2);
    if !ApplicationHeader::readable(b2) {
        r matches Err(ParseError::InvalidBlockStructure { message }) && message@
            == "Application header too short"@
    } else if b2.subrange(1, 4) != T::type_code() {
        if t03 {
            r matches Err(ParseError::SwiftValidation(e)) && e.code@ == "T03"@
        } else {
            r matches Err(ParseError::WrongMessageType { expected, actual }) && expected@
                == T::type_code() && actual@ == b2.subrange(1, 4)
        }
    } else {
        match r {
            Ok(m) => T::parse_spec(block_or_empty(raw, 4), Ok(m.fields)) && m.message_type@
                == T::type_code() && m.application_header.message_type@ == T::type_code()
                && m.basic_header.parts() == BasicHeader::read(block_or_empty(raw, 1)) && (
            m.user_header is Some <==> block_content(raw, 3) is Some) && (m.trailer is Some
                <==> block_content(raw, 5) is Some),
            Err(e) => T::parse_spec(block_or_empty(raw, 4), Err(e)),
        }
    }
}

/// An optional block content, or the empty string.
fn or_empty(b: Option<String>) -> (s: String)
    ensures
        s@ == match b {
            Some(x) => x@,
            None => Seq::empty(),
        },
{
    match b {
        Some(x) => x,
        None => String::new(),
    }
}

impl SwiftParser {
    /// Parse a whole message as type `T`.
    pub fn parse_whole<T: SwiftMessageBody>(raw_message: &str, t03: bool) -> (r: Result<
        SwiftMessage<T>,
        ParseError,
    >)
        ensures
            message_parsed(raw_message@, r, t03),
    {
        let block1 = match Self::extract_block(raw_message, 1) {
            Ok(b) => b,
            Err(e) => return Err(e),
        };
        let block2 = match Self::extract_block(raw_message, 2) {
            Ok(b) => b,
            Err(e) => return Err(e),
        };
        let block3 = match Self::extract_block(raw_message, 3) {
            Ok(b) => b,
            Err(e) => return Err(e),
        };
        let block4 = match Self::extract_block(raw_message, 4) {
            Ok(b) => b,
            Err(e) => return Err(e),
        };
        let block5 = match Self::extract_block(raw_message, 5) {
            Ok(b) => b,
            Err(e) => return Err(e),
        };
        let b1 = or_empty(block1);
        let b2 = or_empty(block2);
        let b4 = or_empty(block4);
        let basic_header = match BasicHeader::parse(b1.as_str()) {
            Ok(h) => h,
            Err(e) => return Err(e),
        };
        let application_header = match ApplicationHeader::parse(b2.as_str()) {
            Ok(h) => h,
            Err(e) => return Err(e),
        };
        let user_header = match block3 {
            Some(b) => match UserHeader::parse(b.as_str()) {
                Ok(h) => Some(h),
                Err(e) => return Err(e),
            },
            None => None,
        };
        let trailer = match block5 {
            Some(b) => match Trailer::parse(b.as_str()) {
                Ok(t) => Some(t),
                Err(e) => return Err(e),
            },
            None => None,
        };
        let message_type = application_header.message_type.clone();
        let expected = T::message_type();
        if !chars_eq(&string_chars(&message_type), &to_chars(expected)) {
            if t03 {
                let mut msg = to_chars("Message type mismatch: expected ");
                append_chars(&mut msg, &to_chars(expected));
                append_chars(&mut msg, &to_chars(", got "));
                append_chars(&mut msg, &string_chars(&message_type));
                let message = from_chars(&msg);
                let e = SwiftValidationError::format_error(
                    crate::swift_error_codes::t_series::T03,
                    "MESSAGE_TYPE",
                    message_type.as_str(),
                    expected,
                    message.as_str(),
                );
                proof {
                    reveal_strlit("T03");
                }
                return Err(ParseError::SwiftValidation(Box::new(e)));
            } else {
                return Err(
                    ParseError::WrongMessageType {
                        expected: expected.to_string(),
                        actual: message_type,
                    },
                );
            }
        }
        let fields = match T::parse_from_block4(b4.as_str()) {
            Ok(f) => f,
            Err(e) => return Err(e),
        };
        Ok(
            SwiftMessage {
                basic_header,
                application_header,
                user_header,
                trailer,
                message_type,
                fields,
            },
        )
    }

    /// Parse a raw SWIFT message string into a typed message (static method for backward compatibility)
    pub fn parse<T: SwiftMessageBody>(raw_message: &str) -> (r: Result<SwiftMessage<T>, ParseError>)
        ensures
            message_parsed(raw_message@, r, true),
    {
        Self::parse_whole(raw_message, true)
    }

    /// Parse a raw SWIFT message string into a typed message with configuration support
    pub fn parse_message<T: SwiftMessageBody>(&self, raw_message: &str) -> (r: Result<
        SwiftMessage<T>,
        ParseError,
    >)
        ensures
            message_parsed(raw_message@, r, true),
    {
        Self::parse_whole(raw_message, true)
    }

    /// Parse a message and return ParseResult with all errors collected
    pub fn parse_with_errors<T: SwiftMessageBody>(&self, raw_message: &str) -> (r: Result<
        ParseResult<SwiftMessage<T>>,
        ParseError,
    >)
        ensures
            match r {
                Ok(ParseResult::Success(m)) => message_parsed(raw_message@, Ok(m), true),
                Ok(_) => false,
                Err(e) => message_parsed::<T>(raw_message@, Err(e), true),
            },
    {
        match Self::parse_whole(raw_message, true) {
            Ok(m) => Ok(ParseResult::Success(m)),
            Err(e) => Err(e),
        }
    }

    /// Parse a raw SWIFT message string with automatic message type detection (static method for backward compatibility)
    pub fn parse_auto(raw_message: &str) -> (r: Result<ParsedSwiftMessage, ParseError>)
        ensures
            auto_parsed(raw_message@, r),
    {
        parse_any(raw_message)
    }

    /// Parse a raw SWIFT message string with automatic message type detection and configuration support
    pub fn parse_message_auto(&self, raw_message: &str) -> (r: Result<ParsedSwiftMessage, ParseError>)
        ensures
            auto_parsed(raw_message@, r),
    {
        parse_any(raw_message)
    }
}

} // verus!

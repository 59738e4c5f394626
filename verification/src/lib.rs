//! Parsing, field bookkeeping and validation of SWIFT MT messages.

pub mod text;
pub mod numeric;
pub mod slash_handler;
pub mod shared_validation;
pub mod swift_error_codes;
pub mod field_map;
pub mod block4;
pub mod errors;
pub mod blocks;
pub mod parser;
pub mod legacy_parser;
pub mod message_parser;
pub mod parsing_utils;
pub mod traits;
pub mod messages;
pub mod headers;
pub mod swift_message;
pub mod parsed_message;
pub mod name_field;
pub mod utils;
pub mod scenario_config;
pub mod sample;
pub mod plugin;
pub mod json_text;
pub mod validation;
pub mod round_trip;
pub mod sequence_round_trip;

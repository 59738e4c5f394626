//! Parsing SWIFT MT messages: blocks, fields, sequences and the
//! bookkeeping of consumed fields.

pub mod swift_parser;

pub use crate::block4::{extract_base_tag, normalize_field_tag, parse_block4_fields};
pub use swift_parser::SwiftParser;
pub mod consumption;

pub use consumption::{FieldConsumptionTracker, ParsingContext};
pub mod sequence_parser;

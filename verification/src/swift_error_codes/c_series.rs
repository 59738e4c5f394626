//! Error codes of one SWIFT series, each named by itself.

use vstd::prelude::*;

verus! {

/// Sum validation error (field totals don't match)
pub const C01: &'static str = "C01";
/// Currency code mismatch between related fields
pub const C02: &'static str = "C02";
/// Amount format validation (decimal requirements)
pub const C03: &'static str = "C03";
/// Date relationship validation
pub const C04: &'static str = "C04";
/// Time relationship validation
pub const C05: &'static str = "C05";
/// Rate relationship validation
pub const C06: &'static str = "C06";
/// Reference relationship validation
pub const C07: &'static str = "C07";
/// Commodity currency codes not allowed (XAU, XAG, XPD, XPT)
pub const C08: &'static str = "C08";
/// Invalid currency for message type
pub const C09: &'static str = "C09";
/// Invalid amount for currency
pub const C10: &'static str = "C10";
/// Invalid date sequence
pub const C11: &'static str = "C11";
/// Invalid time sequence
pub const C12: &'static str = "C12";
/// Invalid rate sequence
pub const C13: &'static str = "C13";
/// Invalid amount sequence
pub const C14: &'static str = "C14";
/// Invalid reference sequence
pub const C15: &'static str = "C15";
/// Invalid party sequence
pub const C16: &'static str = "C16";
/// Invalid instruction sequence
pub const C17: &'static str = "C17";
/// Invalid charge sequence
pub const C18: &'static str = "C18";
/// Invalid exchange sequence
pub const C19: &'static str = "C19";
/// Invalid settlement sequence
pub const C20: &'static str = "C20";
/// Invalid confirmation sequence
pub const C21: &'static str = "C21";
/// Invalid cancellation sequence
pub const C22: &'static str = "C22";
/// Invalid amendment sequence
pub const C23: &'static str = "C23";
/// Invalid duplicate sequence
pub const C24: &'static str = "C24";
/// Invalid reversal sequence
pub const C25: &'static str = "C25";
/// Invalid return sequence
pub const C26: &'static str = "C26";
/// Invalid reject sequence
pub const C27: &'static str = "C27";
/// Invalid status sequence
pub const C28: &'static str = "C28";
/// Invalid inquiry sequence
pub const C29: &'static str = "C29";
/// Invalid response sequence
pub const C30: &'static str = "C30";
/// Conditional field dependency (if field A present, field B must be present)
pub const C81: &'static str = "C81";
/// Conditional field exclusion (if field A present, field B must not be present)
pub const C82: &'static str = "C82";
/// Conditional field option (if field A present, field B must use specific option)
pub const C83: &'static str = "C83";
/// Conditional field value (if field A has value X, field B must have value Y)
pub const C84: &'static str = "C84";
/// Conditional field format (if field A present, field B must use specific format)
pub const C85: &'static str = "C85";
/// Conditional field length (if field A present, field B must have specific length)
pub const C86: &'static str = "C86";
/// Conditional field pattern (if field A present, field B must match pattern)
pub const C87: &'static str = "C87";
/// Conditional field range (if field A present, field B must be in range)
pub const C88: &'static str = "C88";
/// Conditional field list (if field A present, field B must be from list)
pub const C89: &'static str = "C89";
/// Conditional field code (if field A present, field B must use specific code)
pub const C90: &'static str = "C90";

} // verus!

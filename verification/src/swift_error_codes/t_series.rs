//! Error codes of one SWIFT series, each named by itself.

use vstd::prelude::*;

verus! {

/// Invalid code in field (must use specific allowed codes)
pub const T08: &'static str = "T08";
/// Field must not start or end with slash '/' and must not contain consecutive slashes
pub const T26: &'static str = "T26";
/// Invalid BIC code format
pub const T27: &'static str = "T27";
/// Invalid BIC code length (must be 8 or 11 characters)
pub const T28: &'static str = "T28";
/// Invalid BIC code structure (violates ISO 9362)
pub const T29: &'static str = "T29";
/// Invalid amount format (doesn't match decimal pattern)
pub const T40: &'static str = "T40";
/// Amount exceeds maximum digits allowed for currency
pub const T43: &'static str = "T43";
/// Invalid identifier code format (party identifier format violation)
pub const T45: &'static str = "T45";
/// Invalid date format (must be YYMMDD)
pub const T50: &'static str = "T50";
/// Invalid currency code (not ISO 4217 compliant)
pub const T52: &'static str = "T52";
/// Invalid structured address format
pub const T56: &'static str = "T56";
/// Invalid country code (not ISO 3166 compliant)
pub const T73: &'static str = "T73";
/// Invalid message structure
pub const T01: &'static str = "T01";
/// Invalid field tag
pub const T02: &'static str = "T02";
/// Invalid field length
pub const T03: &'static str = "T03";
/// Invalid character set
pub const T04: &'static str = "T04";
/// Invalid line structure
pub const T05: &'static str = "T05";
/// Invalid component structure
pub const T06: &'static str = "T06";
/// Invalid subfield structure
pub const T07: &'static str = "T07";
/// Invalid option specification
pub const T09: &'static str = "T09";
/// Invalid sequence structure
pub const T10: &'static str = "T10";
/// Invalid repetition count
pub const T11: &'static str = "T11";
/// Invalid field content
pub const T12: &'static str = "T12";
/// Invalid field tag or sequence
pub const T13: &'static str = "T13";
/// Invalid mandatory field
pub const T14: &'static str = "T14";
/// Invalid optional field
pub const T15: &'static str = "T15";
/// Invalid conditional field
pub const T16: &'static str = "T16";
/// Invalid mutual exclusion
pub const T17: &'static str = "T17";
/// Invalid field dependency
pub const T18: &'static str = "T18";
/// Invalid field order
pub const T19: &'static str = "T19";
/// Invalid reference field
pub const T20: &'static str = "T20";
/// Invalid time format
pub const T21: &'static str = "T21";
/// Invalid rate format
pub const T22: &'static str = "T22";
/// Invalid percentage format
pub const T23: &'static str = "T23";
/// Invalid number format
pub const T24: &'static str = "T24";
/// Invalid text format
pub const T25: &'static str = "T25";
/// Invalid value date
pub const T30: &'static str = "T30";
/// Invalid settlement date
pub const T31: &'static str = "T31";
/// Invalid execution date
pub const T32: &'static str = "T32";
/// Invalid expiry date
pub const T33: &'static str = "T33";
/// Invalid maturity date
pub const T34: &'static str = "T34";
/// Invalid trade date
pub const T35: &'static str = "T35";
/// Invalid effective date
pub const T36: &'static str = "T36";
/// Invalid cut-off date
pub const T37: &'static str = "T37";
/// Invalid due date
pub const T38: &'static str = "T38";
/// Invalid period format
pub const T39: &'static str = "T39";
/// Invalid decimal places
pub const T41: &'static str = "T41";
/// Invalid sign format
pub const T42: &'static str = "T42";
/// Invalid precision
pub const T44: &'static str = "T44";
/// Invalid account format
pub const T46: &'static str = "T46";
/// Invalid IBAN format
pub const T47: &'static str = "T47";
/// Invalid IBAN check digits
pub const T48: &'static str = "T48";
/// Invalid IBAN length
pub const T49: &'static str = "T49";
/// Invalid currency pair
pub const T51: &'static str = "T51";
/// Invalid currency order
pub const T53: &'static str = "T53";
/// Invalid currency combination
pub const T54: &'static str = "T54";
/// Invalid address format
pub const T55: &'static str = "T55";
/// Invalid name format
pub const T57: &'static str = "T57";
/// Invalid party format
pub const T58: &'static str = "T58";
/// Invalid institution format
pub const T59: &'static str = "T59";
/// Invalid location format
pub const T60: &'static str = "T60";
/// Invalid clearing code
pub const T61: &'static str = "T61";
/// Invalid routing code
pub const T62: &'static str = "T62";
/// Invalid sort code
pub const T63: &'static str = "T63";
/// Invalid branch code
pub const T64: &'static str = "T64";
/// Invalid member code
pub const T65: &'static str = "T65";
/// Invalid participant code
pub const T66: &'static str = "T66";
/// Invalid system code
pub const T67: &'static str = "T67";
/// Invalid network code
pub const T68: &'static str = "T68";
/// Invalid service code
pub const T69: &'static str = "T69";
/// Invalid priority code
pub const T70: &'static str = "T70";
/// Invalid delivery code
pub const T71: &'static str = "T71";
/// Invalid monitoring code
pub const T72: &'static str = "T72";
/// Invalid region code
pub const T74: &'static str = "T74";
/// Invalid zone code
pub const T75: &'static str = "T75";

} // verus!

//! Error codes of one SWIFT series, each named by itself.

use vstd::prelude::*;

verus! {

/// Invalid data content
pub const D01: &'static str = "D01";
/// Invalid data format
pub const D02: &'static str = "D02";
/// Invalid data length
pub const D03: &'static str = "D03";
/// Invalid data type
pub const D04: &'static str = "D04";
/// Invalid data range
pub const D05: &'static str = "D05";
/// Invalid data pattern
pub const D06: &'static str = "D06";
/// Invalid data code
pub const D07: &'static str = "D07";
/// Invalid data list
pub const D08: &'static str = "D08";
/// Invalid data option
pub const D09: &'static str = "D09";
/// Invalid data sequence
pub const D10: &'static str = "D10";
/// Invalid data dependency
pub const D11: &'static str = "D11";
/// Invalid data exclusion
pub const D12: &'static str = "D12";
/// Invalid data combination
pub const D13: &'static str = "D13";
/// Invalid data relationship
pub const D14: &'static str = "D14";
/// Invalid data context
pub const D15: &'static str = "D15";
/// Invalid data environment
pub const D16: &'static str = "D16";
/// Field presence requirement (field must be present in sequence)
pub const D17: &'static str = "D17";
/// Mutually exclusive field placement between sequences
pub const D18: &'static str = "D18";
/// IBAN mandatory for SEPA countries
pub const D19: &'static str = "D19";
/// Field 71A presence rules between sequences
pub const D20: &'static str = "D20";
/// Invalid regional requirement
pub const D21: &'static str = "D21";
/// Exchange rate field dependency (field 36 required when applicable)
pub const D22: &'static str = "D22";
/// Invalid geographic requirement
pub const D23: &'static str = "D23";
/// Invalid jurisdictional requirement
pub const D24: &'static str = "D24";
/// Invalid regulatory requirement
pub const D25: &'static str = "D25";
/// Invalid compliance requirement
pub const D26: &'static str = "D26";
/// Invalid legal requirement
pub const D27: &'static str = "D27";
/// Invalid operational requirement
pub const D28: &'static str = "D28";
/// Invalid technical requirement
pub const D29: &'static str = "D29";
/// Invalid business requirement
pub const D30: &'static str = "D30";
/// Invalid market requirement
pub const D31: &'static str = "D31";
/// Invalid network requirement
pub const D32: &'static str = "D32";
/// Invalid system requirement
pub const D33: &'static str = "D33";
/// Invalid service requirement
pub const D34: &'static str = "D34";
/// Invalid product requirement
pub const D35: &'static str = "D35";
/// Invalid feature requirement
pub const D36: &'static str = "D36";
/// Invalid function requirement
pub const D37: &'static str = "D37";
/// Invalid capability requirement
pub const D38: &'static str = "D38";
/// Invalid availability requirement
pub const D39: &'static str = "D39";
/// Invalid accessibility requirement
pub const D40: &'static str = "D40";
/// Invalid compatibility requirement
pub const D41: &'static str = "D41";
/// Invalid interoperability requirement
pub const D42: &'static str = "D42";
/// Invalid integration requirement
pub const D43: &'static str = "D43";
/// Invalid migration requirement
pub const D44: &'static str = "D44";
/// Invalid transition requirement
pub const D45: &'static str = "D45";
/// Invalid upgrade requirement
pub const D46: &'static str = "D46";
/// Invalid version requirement
pub const D47: &'static str = "D47";
/// Invalid release requirement
pub const D48: &'static str = "D48";
/// Field 33B mandatory for European country combinations
pub const D49: &'static str = "D49";
/// SHA charge handling restrictions (field 71F optional, 71G not allowed)
pub const D50: &'static str = "D50";
/// Field 33B mandatory when charge fields (71F/71G) present
pub const D51: &'static str = "D51";
/// Invalid charge handling
pub const D52: &'static str = "D52";
/// Invalid fee handling
pub const D53: &'static str = "D53";
/// Invalid commission handling
pub const D54: &'static str = "D54";
/// Invalid tax handling
pub const D55: &'static str = "D55";
/// Invalid levy handling
pub const D56: &'static str = "D56";
/// Invalid penalty handling
pub const D57: &'static str = "D57";
/// Invalid interest handling
pub const D58: &'static str = "D58";
/// Invalid discount handling
pub const D59: &'static str = "D59";
/// Invalid premium handling
pub const D60: &'static str = "D60";
/// Invalid spread handling
pub const D61: &'static str = "D61";
/// Invalid margin handling
pub const D62: &'static str = "D62";
/// Invalid markup handling
pub const D63: &'static str = "D63";
/// Invalid markdown handling
pub const D64: &'static str = "D64";
/// Invalid adjustment handling
pub const D65: &'static str = "D65";
/// Invalid correction handling
pub const D66: &'static str = "D66";
/// Invalid compensation handling
pub const D67: &'static str = "D67";
/// Invalid reimbursement handling
pub const D68: &'static str = "D68";
/// Invalid refund handling
pub const D69: &'static str = "D69";
/// Invalid rebate handling
pub const D70: &'static str = "D70";
/// Invalid credit handling
pub const D71: &'static str = "D71";
/// Invalid debit handling
pub const D72: &'static str = "D72";
/// Invalid payment handling
pub const D73: &'static str = "D73";
/// Invalid settlement handling
pub const D74: &'static str = "D74";
/// Exchange rate field mandatory when currency codes differ
pub const D75: &'static str = "D75";
/// Invalid clearing handling
pub const D76: &'static str = "D76";
/// Invalid netting handling
pub const D77: &'static str = "D77";
/// Invalid matching handling
pub const D78: &'static str = "D78";
/// Field 71G dependency between sequence B and C
pub const D79: &'static str = "D79";
/// Invalid reconciliation handling
pub const D80: &'static str = "D80";
/// Invalid confirmation handling
pub const D81: &'static str = "D81";
/// Invalid acknowledgment handling
pub const D82: &'static str = "D82";
/// Invalid notification handling
pub const D83: &'static str = "D83";
/// Invalid reporting handling
pub const D84: &'static str = "D84";
/// Invalid monitoring handling
pub const D85: &'static str = "D85";
/// Invalid tracking handling
pub const D86: &'static str = "D86";
/// Invalid tracing handling
pub const D87: &'static str = "D87";
/// Invalid audit handling
pub const D88: &'static str = "D88";
/// Invalid logging handling
pub const D89: &'static str = "D89";
/// Invalid archiving handling
pub const D90: &'static str = "D90";
/// Invalid backup handling
pub const D91: &'static str = "D91";
/// Invalid recovery handling
pub const D92: &'static str = "D92";
/// Account number restrictions based on operation codes
pub const D93: &'static str = "D93";
/// Invalid security handling
pub const D94: &'static str = "D94";
/// Invalid encryption handling
pub const D95: &'static str = "D95";
/// Invalid authentication handling
pub const D96: &'static str = "D96";
/// Invalid authorization handling
pub const D97: &'static str = "D97";
/// Invalid validation handling
pub const D98: &'static str = "D98";
/// Invalid verification handling
pub const D99: &'static str = "D99";

} // verus!

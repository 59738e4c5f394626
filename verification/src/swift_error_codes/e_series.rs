//! Error codes of one SWIFT series, each named by itself.

use vstd::prelude::*;

verus! {

/// Instruction code restrictions (SPRI field 23E can only contain SDVA, TELB, PHOB, INTC)
pub const E01: &'static str = "E01";
/// Prohibited instruction codes (SSTD/SPAY field 23E not allowed)
pub const E02: &'static str = "E02";
/// Field option restrictions (53a cannot use option D with SPRI/SSTD/SPAY)
pub const E03: &'static str = "E03";
/// Party identifier requirements in specific contexts
pub const E04: &'static str = "E04";
/// Field option restrictions for 54a
pub const E05: &'static str = "E05";
/// Multiple field dependency (if 55a present, both 53a and 54a required)
pub const E06: &'static str = "E06";
/// Field option restrictions for 55a
pub const E07: &'static str = "E07";
/// Invalid instruction combination
pub const E08: &'static str = "E08";
/// Party identifier mandatory in option D for field 57a
pub const E09: &'static str = "E09";
/// Beneficiary account mandatory for specific operation codes
pub const E10: &'static str = "E10";
/// Invalid option combination
pub const E11: &'static str = "E11";
/// Invalid field combination
pub const E12: &'static str = "E12";
/// OUR charge handling restrictions (field 71F not allowed, 71G optional)
pub const E13: &'static str = "E13";
/// Invalid charge combination
pub const E14: &'static str = "E14";
/// BEN charge handling requirements (field 71F mandatory, 71G not allowed)
pub const E15: &'static str = "E15";
/// Field restrictions with SPRI (56a not allowed with SPRI)
pub const E16: &'static str = "E16";
/// Clearing code requirements for option C
pub const E17: &'static str = "E17";
/// Account restrictions with CHQB operation code
pub const E18: &'static str = "E18";
/// Invalid operation combination
pub const E19: &'static str = "E19";
/// Invalid service combination
pub const E20: &'static str = "E20";
/// Invalid product combination
pub const E21: &'static str = "E21";
/// Invalid feature combination
pub const E22: &'static str = "E22";
/// Invalid function combination
pub const E23: &'static str = "E23";
/// Invalid capability combination
pub const E24: &'static str = "E24";
/// Invalid method combination
pub const E25: &'static str = "E25";
/// Invalid procedure combination
pub const E26: &'static str = "E26";
/// Invalid process combination
pub const E27: &'static str = "E27";
/// Invalid workflow combination
pub const E28: &'static str = "E28";
/// Invalid sequence combination
pub const E29: &'static str = "E29";
/// Invalid step combination
pub const E30: &'static str = "E30";
/// Invalid phase combination
pub const E31: &'static str = "E31";
/// Invalid stage combination
pub const E32: &'static str = "E32";
/// Invalid state combination
pub const E33: &'static str = "E33";
/// Invalid status combination
pub const E34: &'static str = "E34";
/// Invalid condition combination
pub const E35: &'static str = "E35";
/// Invalid criteria combination
pub const E36: &'static str = "E36";
/// Invalid requirement combination
pub const E37: &'static str = "E37";
/// Invalid constraint combination
pub const E38: &'static str = "E38";
/// Invalid restriction combination
pub const E39: &'static str = "E39";
/// Invalid limitation combination
pub const E40: &'static str = "E40";
/// Invalid boundary combination
pub const E41: &'static str = "E41";
/// Invalid threshold combination
pub const E42: &'static str = "E42";
/// Invalid limit combination
pub const E43: &'static str = "E43";
/// Instruction code dependencies on field presence
pub const E44: &'static str = "E44";
/// Instruction code field dependencies on field presence
pub const E45: &'static str = "E45";
/// Invalid dependency combination
pub const E46: &'static str = "E46";
/// Invalid relationship combination
pub const E47: &'static str = "E47";
/// Invalid association combination
pub const E48: &'static str = "E48";
/// Invalid connection combination
pub const E49: &'static str = "E49";
/// Invalid link combination
pub const E50: &'static str = "E50";
/// Invalid reference combination
pub const E51: &'static str = "E51";
/// Invalid pointer combination
pub const E52: &'static str = "E52";
/// Invalid identifier combination
pub const E53: &'static str = "E53";
/// Invalid key combination
pub const E54: &'static str = "E54";
/// Invalid index combination
pub const E55: &'static str = "E55";
/// Invalid code combination
pub const E56: &'static str = "E56";
/// Invalid value combination
pub const E57: &'static str = "E57";
/// Invalid data combination
pub const E58: &'static str = "E58";
/// Invalid content combination
pub const E59: &'static str = "E59";
/// Invalid information combination
pub const E60: &'static str = "E60";
/// Invalid detail combination
pub const E61: &'static str = "E61";
/// Invalid element combination
pub const E62: &'static str = "E62";
/// Invalid component combination
pub const E63: &'static str = "E63";
/// Invalid part combination
pub const E64: &'static str = "E64";
/// Invalid section combination
pub const E65: &'static str = "E65";
/// Invalid segment combination
pub const E66: &'static str = "E66";
/// Invalid block combination
pub const E67: &'static str = "E67";
/// Invalid group combination
pub const E68: &'static str = "E68";
/// Invalid set combination
pub const E69: &'static str = "E69";
/// Invalid collection combination
pub const E70: &'static str = "E70";
/// Invalid array combination
pub const E71: &'static str = "E71";
/// Invalid list combination
pub const E72: &'static str = "E72";
/// Invalid sequence combination
pub const E73: &'static str = "E73";
/// Invalid order combination
pub const E74: &'static str = "E74";
/// Invalid arrangement combination
pub const E75: &'static str = "E75";
/// Invalid structure combination
pub const E76: &'static str = "E76";
/// Invalid format combination
pub const E77: &'static str = "E77";
/// Invalid pattern combination
pub const E78: &'static str = "E78";
/// Invalid template combination
pub const E79: &'static str = "E79";
/// Invalid schema combination
pub const E80: &'static str = "E80";
/// Invalid model combination
pub const E81: &'static str = "E81";
/// Invalid design combination
pub const E82: &'static str = "E82";
/// Invalid specification combination
pub const E83: &'static str = "E83";
/// Invalid definition combination
pub const E84: &'static str = "E84";
/// Invalid description combination
pub const E85: &'static str = "E85";
/// Invalid configuration combination
pub const E86: &'static str = "E86";

} // verus!

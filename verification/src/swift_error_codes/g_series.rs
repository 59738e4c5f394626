//! Error codes of one SWIFT series, each named by itself.

use vstd::prelude::*;

verus! {

/// Field format violation
pub const G001: &'static str = "G001";
/// Field length violation
pub const G002: &'static str = "G002";
/// Field content violation
pub const G003: &'static str = "G003";
/// Field pattern violation
pub const G004: &'static str = "G004";
/// Field range violation
pub const G005: &'static str = "G005";
/// Field type violation
pub const G006: &'static str = "G006";
/// Field structure violation
pub const G007: &'static str = "G007";
/// Field sequence violation
pub const G008: &'static str = "G008";
/// Field order violation
pub const G009: &'static str = "G009";
/// Field position violation
pub const G010: &'static str = "G010";
/// Field occurrence violation
pub const G011: &'static str = "G011";
/// Field repetition violation
pub const G012: &'static str = "G012";
/// Field multiplicity violation
pub const G013: &'static str = "G013";
/// Field cardinality violation
pub const G014: &'static str = "G014";
/// Field optionality violation
pub const G015: &'static str = "G015";
/// Field mandatory violation
pub const G016: &'static str = "G016";
/// Field conditional violation
pub const G017: &'static str = "G017";
/// Field dependency violation
pub const G018: &'static str = "G018";
/// Field exclusion violation
pub const G019: &'static str = "G019";
/// Field inclusion violation
pub const G020: &'static str = "G020";
/// Field choice violation
pub const G021: &'static str = "G021";
/// Field alternative violation
pub const G022: &'static str = "G022";
/// Field option violation
pub const G023: &'static str = "G023";
/// Field variant violation
pub const G024: &'static str = "G024";
/// Field version violation
pub const G025: &'static str = "G025";
/// Field release violation
pub const G026: &'static str = "G026";
/// Field edition violation
pub const G027: &'static str = "G027";
/// Field revision violation
pub const G028: &'static str = "G028";
/// Field update violation
pub const G029: &'static str = "G029";
/// Field modification violation
pub const G030: &'static str = "G030";
/// Field change violation
pub const G031: &'static str = "G031";
/// Field amendment violation
pub const G032: &'static str = "G032";
/// Field correction violation
pub const G033: &'static str = "G033";
/// Field adjustment violation
pub const G034: &'static str = "G034";
/// Field enhancement violation
pub const G035: &'static str = "G035";
/// Field improvement violation
pub const G036: &'static str = "G036";
/// Field extension violation
pub const G037: &'static str = "G037";
/// Field expansion violation
pub const G038: &'static str = "G038";
/// Field addition violation
pub const G039: &'static str = "G039";
/// Field supplementation violation
pub const G040: &'static str = "G040";
/// Field completion violation
pub const G041: &'static str = "G041";
/// Field finalization violation
pub const G042: &'static str = "G042";
/// Field consolidation violation
pub const G043: &'static str = "G043";
/// Field integration violation
pub const G044: &'static str = "G044";
/// Field unification violation
pub const G045: &'static str = "G045";
/// Field standardization violation
pub const G046: &'static str = "G046";
/// Field normalization violation
pub const G047: &'static str = "G047";
/// Field harmonization violation
pub const G048: &'static str = "G048";
/// Field synchronization violation
pub const G049: &'static str = "G049";
/// Field content validation
pub const G050: &'static str = "G050";
/// Sequence validation
pub const G100: &'static str = "G100";
/// Message validation
pub const G150: &'static str = "G150";
/// Block validation
pub const G200: &'static str = "G200";
/// Header validation
pub const G250: &'static str = "G250";
/// Trailer validation
pub const G300: &'static str = "G300";
/// Network validation
pub const G350: &'static str = "G350";
/// System validation
pub const G400: &'static str = "G400";
/// Service validation
pub const G450: &'static str = "G450";
/// Product validation
pub const G500: &'static str = "G500";
/// Feature validation
pub const G550: &'static str = "G550";
/// Function validation
pub const G600: &'static str = "G600";
/// Capability validation
pub const G650: &'static str = "G650";
/// Method validation
pub const G700: &'static str = "G700";
/// Procedure validation
pub const G750: &'static str = "G750";
/// Process validation
pub const G800: &'static str = "G800";

} // verus!

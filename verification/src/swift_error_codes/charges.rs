//! Charge code validation data.

use vstd::prelude::*;
use crate::text::{in_str_list, str_views, to_chars};

verus! {

/// The list, as character sequences.
pub open spec fn charge_codes() -> Seq<Seq<char>> {
    seq![
        "BEN"@, "OUR"@, "SHA"@,
    ]
}

/// The list.
pub fn charge_code_list() -> (v: Vec<&'static str>)
    ensures
        str_views(v@) == charge_codes(),
{
    let v: Vec<&'static str> = vec![
        "BEN", "OUR", "SHA",
    ];
    assert(str_views(v@) =~= charge_codes());
    v
}

/// Check if a charge code is valid
pub fn is_valid_charge_code(code: &str) -> (r: bool)
    ensures
        r == charge_codes().contains(code@),
{
    let c = to_chars(code);
    in_str_list(&c, &charge_code_list())
}

} // verus!

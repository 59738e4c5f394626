//! Currency validation data: commodity currencies, not allowed in payment messages.

use vstd::prelude::*;
use crate::text::{in_str_list, str_views, to_chars};

verus! {

/// The list, as character sequences.
pub open spec fn commodity_currencies() -> Seq<Seq<char>> {
    seq![
        "XAU"@, "XAG"@, "XPD"@, "XPT"@,
    ]
}

/// The list.
pub fn commodity_currency_list() -> (v: Vec<&'static str>)
    ensures
        str_views(v@) == commodity_currencies(),
{
    let v: Vec<&'static str> = vec![
        "XAU", "XAG", "XPD", "XPT",
    ];
    assert(str_views(v@) =~= commodity_currencies());
    v
}

/// Check if a currency is a commodity currency
pub fn is_commodity_currency(currency: &str) -> (r: bool)
    ensures
        r == commodity_currencies().contains(currency@),
{
    let c = to_chars(currency);
    in_str_list(&c, &commodity_currency_list())
}

} // verus!

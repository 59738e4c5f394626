//! Regional validation data: the SEPA countries.

use vstd::prelude::*;
use crate::text::{in_str_list, str_views, to_chars};

verus! {

/// The list, as character sequences.
pub open spec fn sepa_countries() -> Seq<Seq<char>> {
    seq![
        "AD"@, "AT"@, "BE"@, "BG"@, "BV"@, "CH"@, "CY"@, "CZ"@, "DE"@, "DK"@,
        "EE"@, "ES"@, "FI"@, "FR"@, "GB"@, "GF"@, "GI"@, "GP"@, "GR"@, "HU"@,
        "IE"@, "IS"@, "IT"@, "LI"@, "LT"@, "LU"@, "LV"@, "MC"@, "MQ"@, "MT"@,
        "NL"@, "NO"@, "PL"@, "PM"@, "PT"@, "RE"@, "RO"@, "SE"@, "SI"@, "SJ"@,
        "SK"@, "SM"@, "TF"@, "VA"@,
    ]
}

/// The list.
pub fn sepa_country_list() -> (v: Vec<&'static str>)
    ensures
        str_views(v@) == sepa_countries(),
{
    let v: Vec<&'static str> = vec![
        "AD", "AT", "BE", "BG", "BV", "CH", "CY", "CZ", "DE", "DK", "EE", "ES",
        "FI", "FR", "GB", "GF", "GI", "GP", "GR", "HU", "IE", "IS", "IT", "LI",
        "LT", "LU", "LV", "MC", "MQ", "MT", "NL", "NO", "PL", "PM", "PT", "RE",
        "RO", "SE", "SI", "SJ", "SK", "SM", "TF", "VA",
    ];
    assert(str_views(v@) =~= sepa_countries());
    v
}

/// Check if a country code is in the SEPA region
pub fn is_sepa_country(country_code: &str) -> (r: bool)
    ensures
        r == sepa_countries().contains(country_code@),
{
    let c = to_chars(country_code);
    in_str_list(&c, &sepa_country_list())
}

} // verus!

//! Shared validation data and rules for SWIFT MT messages: currencies,
//! country codes, BIC structure and format patterns.

use vstd::prelude::*;
use crate::text::{in_str_list, is_ascii_alnum, is_ascii_upper, str_views, to_chars};

pub mod date_formats;

verus! {

/// Currencies written with no decimal places.
pub open spec fn zero_decimal_currencies() -> Seq<Seq<char>> {
    seq![
        "JPY"@, "KRW"@, "VND"@, "IDR"@, "CLP"@, "PYG"@, "GNF"@, "RWF"@, "BIF"@, "XPF"@,
        "XOF"@, "XAF"@, "KMF"@, "DJF"@, "UGX"@, "MGA"@,
    ]
}

fn zero_decimal_currencies_exec() -> (v: Vec<&'static str>)
    ensures
        str_views(v@) == zero_decimal_currencies(),
{
    let v: Vec<&'static str> = vec![
        "JPY", "KRW", "VND", "IDR", "CLP", "PYG", "GNF", "RWF", "BIF", "XPF", "XOF", "XAF",
        "KMF", "DJF", "UGX", "MGA",
    ];
    assert(str_views(v@) =~= zero_decimal_currencies());
    v
}

/// Currencies written with three decimal places.
pub open spec fn three_decimal_currencies() -> Seq<Seq<char>> {
    seq![
        "BHD"@, "JOD"@, "KWD"@, "OMR"@, "TND"@, "IQD"@, "LYD"@,
    ]
}

fn three_decimal_currencies_exec() -> (v: Vec<&'static str>)
    ensures
        str_views(v@) == three_decimal_currencies(),
{
    let v: Vec<&'static str> = vec![
        "BHD", "JOD", "KWD", "OMR", "TND", "IQD", "LYD",
    ];
    assert(str_views(v@) =~= three_decimal_currencies());
    v
}

/// Valid ISO 4217 currency codes, commodity currencies included.
pub open spec fn valid_currencies() -> Seq<Seq<char>> {
    seq![
        "USD"@, "EUR"@, "GBP"@, "JPY"@, "CHF"@, "CAD"@, "AUD"@, "NZD"@, "SEK"@, "NOK"@,
        "DKK"@, "PLN"@, "CZK"@, "HUF"@, "RUB"@, "CNY"@, "HKD"@, "SGD"@, "KRW"@, "THB"@,
        "INR"@, "MYR"@, "PHP"@, "IDR"@, "VND"@, "BRL"@, "MXN"@, "ARS"@, "CLP"@, "COP"@,
        "PEN"@, "UYU"@, "ZAR"@, "EGP"@, "NGN"@, "GHS"@, "KES"@, "TZS"@, "UGX"@, "ZMW"@,
        "BWP"@, "MUR"@, "SCR"@, "SZL"@, "LSL"@, "NAD"@, "AOA"@, "XOF"@, "XAF"@, "MAD"@,
        "TND"@, "DZD"@, "LYD"@, "ILS"@, "JOD"@, "LBP"@, "SYP"@, "IQD"@, "IRR"@, "SAR"@,
        "AED"@, "QAR"@, "BHD"@, "KWD"@, "OMR"@, "YER"@, "AFN"@, "PKR"@, "LKR"@, "BDT"@,
        "BTN"@, "NPR"@, "MMK"@, "LAK"@, "KHR"@, "MNT"@, "KZT"@, "UZS"@, "KGS"@, "TJS"@,
        "TMT"@, "AZN"@, "GEL"@, "AMD"@, "BGN"@, "RON"@, "HRK"@, "RSD"@, "BAM"@, "MKD"@,
        "ALL"@, "MDL"@, "UAH"@, "BYN"@, "LTL"@, "LVL"@, "EEK"@, "ISK"@, "TRY"@, "PYG"@,
        "GNF"@, "RWF"@, "BIF"@, "XPF"@, "KMF"@, "DJF"@, "MGA"@, "XAU"@, "XAG"@, "XPD"@,
        "XPT"@,
    ]
}

fn valid_currencies_exec() -> (v: Vec<&'static str>)
    ensures
        str_views(v@) == valid_currencies(),
{
    let v: Vec<&'static str> = vec![
        "USD", "EUR", "GBP", "JPY", "CHF", "CAD", "AUD", "NZD", "SEK", "NOK", "DKK", "PLN",
        "CZK", "HUF", "RUB", "CNY", "HKD", "SGD", "KRW", "THB", "INR", "MYR", "PHP", "IDR",
        "VND", "BRL", "MXN", "ARS", "CLP", "COP", "PEN", "UYU", "ZAR", "EGP", "NGN", "GHS",
        "KES", "TZS", "UGX", "ZMW", "BWP", "MUR", "SCR", "SZL", "LSL", "NAD", "AOA", "XOF",
        "XAF", "MAD", "TND", "DZD", "LYD", "ILS", "JOD", "LBP", "SYP", "IQD", "IRR", "SAR",
        "AED", "QAR", "BHD", "KWD", "OMR", "YER", "AFN", "PKR", "LKR", "BDT", "BTN", "NPR",
        "MMK", "LAK", "KHR", "MNT", "KZT", "UZS", "KGS", "TJS", "TMT", "AZN", "GEL", "AMD",
        "BGN", "RON", "HRK", "RSD", "BAM", "MKD", "ALL", "MDL", "UAH", "BYN", "LTL", "LVL",
        "EEK", "ISK", "TRY", "PYG", "GNF", "RWF", "BIF", "XPF", "KMF", "DJF", "MGA", "XAU",
        "XAG", "XPD", "XPT",
    ];
    assert(str_views(v@) =~= valid_currencies());
    v
}

/// Valid ISO 3166-1 alpha-2 country codes.
pub open spec fn valid_country_codes() -> Seq<Seq<char>> {
    seq![
        "AD"@, "AE"@, "AF"@, "AG"@, "AI"@, "AL"@, "AM"@, "AO"@, "AQ"@, "AR"@,
        "AS"@, "AT"@, "AU"@, "AW"@, "AX"@, "AZ"@, "BA"@, "BB"@, "BD"@, "BE"@,
        "BF"@, "BG"@, "BH"@, "BI"@, "BJ"@, "BL"@, "BM"@, "BN"@, "BO"@, "BQ"@,
        "BR"@, "BS"@, "BT"@, "BV"@, "BW"@, "BY"@, "BZ"@, "CA"@, "CC"@, "CD"@,
        "CF"@, "CG"@, "CH"@, "CI"@, "CK"@, "CL"@, "CM"@, "CN"@, "CO"@, "CR"@,
        "CU"@, "CV"@, "CW"@, "CX"@, "CY"@, "CZ"@, "DE"@, "DJ"@, "DK"@, "DM"@,
        "DO"@, "DZ"@, "EC"@, "EE"@, "EG"@, "EH"@, "ER"@, "ES"@, "ET"@, "FI"@,
        "FJ"@, "FK"@, "FM"@, "FO"@, "FR"@, "GA"@, "GB"@, "GD"@, "GE"@, "GF"@,
        "GG"@, "GH"@, "GI"@, "GL"@, "GM"@, "GN"@, "GP"@, "GQ"@, "GR"@, "GS"@,
        "GT"@, "GU"@, "GW"@, "GY"@, "HK"@, "HM"@, "HN"@, "HR"@, "HT"@, "HU"@,
        "ID"@, "IE"@, "IL"@, "IM"@, "IN"@, "IO"@, "IQ"@, "IR"@, "IS"@, "IT"@,
        "JE"@, "JM"@, "JO"@, "JP"@, "KE"@, "KG"@, "KH"@, "KI"@, "KM"@, "KN"@,
        "KP"@, "KR"@, "KW"@, "KY"@, "KZ"@, "LA"@, "LB"@, "LC"@, "LI"@, "LK"@,
        "LR"@, "LS"@, "LT"@, "LU"@, "LV"@, "LY"@, "MA"@, "MC"@, "MD"@, "ME"@,
        "MF"@, "MG"@, "MH"@, "MK"@, "ML"@, "MM"@, "MN"@, "MO"@, "MP"@, "MQ"@,
        "MR"@, "MS"@, "MT"@, "MU"@, "MV"@, "MW"@, "MX"@, "MY"@, "MZ"@, "NA"@,
        "NC"@, "NE"@, "NF"@, "NG"@, "NI"@, "NL"@, "NO"@, "NP"@, "NR"@, "NU"@,
        "NZ"@, "OM"@, "PA"@, "PE"@, "PF"@, "PG"@, "PH"@, "PK"@, "PL"@, "PM"@,
        "PN"@, "PR"@, "PS"@, "PT"@, "PW"@, "PY"@, "QA"@, "RE"@, "RO"@, "RS"@,
        "RU"@, "RW"@, "SA"@, "SB"@, "SC"@, "SD"@, "SE"@, "SG"@, "SH"@, "SI"@,
        "SJ"@, "SK"@, "SL"@, "SM"@, "SN"@, "SO"@, "SR"@, "SS"@, "ST"@, "SV"@,
        "SX"@, "SY"@, "SZ"@, "TC"@, "TD"@, "TF"@, "TG"@, "TH"@, "TJ"@, "TK"@,
        "TL"@, "TM"@, "TN"@, "TO"@, "TR"@, "TT"@, "TV"@, "TW"@, "TZ"@, "UA"@,
        "UG"@, "UM"@, "US"@, "UY"@, "UZ"@, "VA"@, "VC"@, "VE"@, "VG"@, "VI"@,
        "VN"@, "VU"@, "WF"@, "WS"@, "YE"@, "YT"@, "ZA"@, "ZM"@, "ZW"@,
    ]
}

fn valid_country_codes_exec() -> (v: Vec<&'static str>)
    ensures
        str_views(v@) == valid_country_codes(),
{
    let v: Vec<&'static str> = vec![
        "AD", "AE", "AF", "AG", "AI", "AL", "AM", "AO", "AQ", "AR", "AS", "AT",
        "AU", "AW", "AX", "AZ", "BA", "BB", "BD", "BE", "BF", "BG", "BH", "BI",
        "BJ", "BL", "BM", "BN", "BO", "BQ", "BR", "BS", "BT", "BV", "BW", "BY",
        "BZ", "CA", "CC", "CD", "CF", "CG", "CH", "CI", "CK", "CL", "CM", "CN",
        "CO", "CR", "CU", "CV", "CW", "CX", "CY", "CZ", "DE", "DJ", "DK", "DM",
        "DO", "DZ", "EC", "EE", "EG", "EH", "ER", "ES", "ET", "FI", "FJ", "FK",
        "FM", "FO", "FR", "GA", "GB", "GD", "GE", "GF", "GG", "GH", "GI", "GL",
        "GM", "GN", "GP", "GQ", "GR", "GS", "GT", "GU", "GW", "GY", "HK", "HM",
        "HN", "HR", "HT", "HU", "ID", "IE", "IL", "IM", "IN", "IO", "IQ", "IR",
        "IS", "IT", "JE", "JM", "JO", "JP", "KE", "KG", "KH", "KI", "KM", "KN",
        "KP", "KR", "KW", "KY", "KZ", "LA", "LB", "LC", "LI", "LK", "LR", "LS",
        "LT", "LU", "LV", "LY", "MA", "MC", "MD", "ME", "MF", "MG", "MH", "MK",
        "ML", "MM", "MN", "MO", "MP", "MQ", "MR", "MS", "MT", "MU", "MV", "MW",
        "MX", "MY", "MZ", "NA", "NC", "NE", "NF", "NG", "NI", "NL", "NO", "NP",
        "NR", "NU", "NZ", "OM", "PA", "PE", "PF", "PG", "PH", "PK", "PL", "PM",
        "PN", "PR", "PS", "PT", "PW", "PY", "QA", "RE", "RO", "RS", "RU", "RW",
        "SA", "SB", "SC", "SD", "SE", "SG", "SH", "SI", "SJ", "SK", "SL", "SM",
        "SN", "SO", "SR", "SS", "ST", "SV", "SX", "SY", "SZ", "TC", "TD", "TF",
        "TG", "TH", "TJ", "TK", "TL", "TM", "TN", "TO", "TR", "TT", "TV", "TW",
        "TZ", "UA", "UG", "UM", "US", "UY", "UZ", "VA", "VC", "VE", "VG", "VI",
        "VN", "VU", "WF", "WS", "YE", "YT", "ZA", "ZM", "ZW",
    ];
    assert(str_views(v@) =~= valid_country_codes());
    v
}

/// Default decimal places for currencies not in the special cases
pub const DEFAULT_CURRENCY_DECIMALS: u8 = 2;

/// The decimal places of a currency.
pub open spec fn currency_decimals(c: Seq<char>) -> u8 {
    if zero_decimal_currencies().contains(c) {
        0
    } else if three_decimal_currencies().contains(c) {
        3
    } else {
        DEFAULT_CURRENCY_DECIMALS
    }
}

/// Get decimal places for a currency
pub fn get_currency_decimals(currency: &str) -> (r: u8)
    ensures
        r == currency_decimals(currency@),
{
    let c = to_chars(currency);
    if in_str_list(&c, &zero_decimal_currencies_exec()) {
        0
    } else if in_str_list(&c, &three_decimal_currencies_exec()) {
        3
    } else {
        DEFAULT_CURRENCY_DECIMALS
    }
}

/// Check if a currency code is valid
pub fn is_valid_currency(currency: &str) -> (r: bool)
    ensures
        r == valid_currencies().contains(currency@),
{
    let c = to_chars(currency);
    in_str_list(&c, &valid_currencies_exec())
}

/// Check if a country code is valid
pub fn is_valid_country_code(code: &str) -> (r: bool)
    ensures
        r == valid_country_codes().contains(code@),
{
    let c = to_chars(code);
    in_str_list(&c, &valid_country_codes_exec())
}

/// SWIFT format pattern specifications
#[derive(Debug, Clone)]
pub struct FormatSpec {
    pub pattern: &'static str,
    pub description: &'static str,
    pub regex: Option<&'static str>,
}

/// BIC structure validation rules
#[derive(Debug)]
pub struct BICStructure {
    pub bank_code_length: usize,
    pub country_code_length: usize,
    pub location_code_length: usize,
    pub branch_code_length: usize,
    pub valid_lengths: Vec<usize>,
}

/// The structure of a BIC: 4 bank letters, 2 country letters, 2 location
/// characters and an optional 3-character branch; 8 or 11 characters long.
pub fn bic_structure() -> (b: BICStructure)
    ensures
        b.bank_code_length == 4,
        b.country_code_length == 2,
        b.location_code_length == 2,
        b.branch_code_length == 3,
        b.valid_lengths@ == seq![8usize, 11usize],
{
    let v: Vec<usize> = vec![8, 11];
    BICStructure {
        bank_code_length: 4,
        country_code_length: 2,
        location_code_length: 2,
        branch_code_length: 3,
        valid_lengths: v,
    }
}

/// Every character of `s[a..b]` is an upper-case ASCII letter.
pub open spec fn all_upper_in(s: Seq<char>, a: int, b: int) -> bool {
    forall|i: int| a <= i < b ==> is_ascii_upper(#[trigger] s[i])
}

/// Every character of `s[a..b]` is an ASCII letter or digit.
pub open spec fn all_alnum_in(s: Seq<char>, a: int, b: int) -> bool {
    forall|i: int| a <= i < b ==> is_ascii_alnum(#[trigger] s[i])
}

/// The structure of a BIC: 8 or 11 ASCII characters; four upper-case bank
/// letters, a valid country code, two alphanumeric location characters and,
/// in an 11-character BIC, three alphanumeric branch characters.
pub open spec fn valid_bic_structure(b: Seq<char>) -> bool {
    &&& b.len() == 8 || b.len() == 11
    &&& all_upper_in(b, 0, 4)
    &&& valid_country_codes().contains(b.subrange(4, 6))
    &&& all_alnum_in(b, 6, 8)
    &&& b.len() == 11 ==> all_alnum_in(b, 8, 11)
}

fn all_in_exec_upper(s: &Vec<char>, a: usize, b: usize) -> (r: bool)
    requires
        a <= b <= s.len(),
    ensures
        r == all_upper_in(s@, a as int, b as int),
{
    let mut i = a;
    while i < b
        invariant
            a <= i <= b <= s.len(),
            all_upper_in(s@, a as int, i as int),
        decreases b - i,
    {
        if !('A' <= s[i] && s[i] <= 'Z') {
            return false;
        }
        i = i + 1;
    }
    true
}

fn all_in_exec_alnum(s: &Vec<char>, a: usize, b: usize) -> (r: bool)
    requires
        a <= b <= s.len(),
    ensures
        r == all_alnum_in(s@, a as int, b as int),
{
    let mut i = a;
    while i < b
        invariant
            a <= i <= b <= s.len(),
            all_alnum_in(s@, a as int, i as int),
        decreases b - i,
    {
        let c = s[i];
        if !(('A' <= c && c <= 'Z') || ('a' <= c && c <= 'z') || ('0' <= c && c <= '9')) {
            return false;
        }
        i = i + 1;
    }
    true
}

/// Validate BIC structure (basic validation without full checks)
pub fn is_valid_bic_structure(bic: &str) -> (r: bool)
    ensures
        r == valid_bic_structure(bic@),
{
    let b = to_chars(bic);
    if !(b.len() == 8 || b.len() == 11) {
        return false;
    }
    if !all_in_exec_upper(&b, 0, 4) {
        return false;
    }
    let country = crate::text::slice_chars(&b, 4, 6);
    if !in_str_list(&country, &valid_country_codes_exec()) {
        return false;
    }
    if !all_in_exec_alnum(&b, 6, 8) {
        return false;
    }
    if b.len() == 11 {
        if !all_in_exec_alnum(&b, 8, 11) {
            return false;
        }
    }
    true
}

} // verus!

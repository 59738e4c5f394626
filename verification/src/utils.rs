//! Helpers for field tags: variants, index suffixes and numbered fields.

use vstd::prelude::*;
use crate::block4::{base_tag, extract_base_tag};
use crate::text::{
    append_chars, chars_eq, find_char, from_chars, lemma_find_from, occurs_at, to_chars,
};
use crate::traits::SwiftField;

verus! {

/// `a` followed by `b`, as a new string.
fn concat(a: &str, b: &str) -> (r: String)
    ensures
        r@ == a@ + b@,
{
    let mut v = to_chars(a);
    append_chars(&mut v, &to_chars(b));
    from_chars(&v)
}

/// The tag of a field value: the base tag with the value's variant letter,
/// or the base tag alone for a simple field or the "NoOption" variant.
pub open spec fn tag_with_variant(base: Seq<char>, variant: Option<Seq<char>>) -> Seq<char> {
    match variant {
        Some(v) => if v == "NoOption"@ {
            base
        } else {
            base + v
        },
        None => base,
    }
}

/// Helper function to get field tag with variant for enum fields
pub fn get_field_tag_with_variant<T: SwiftField>(base_tag: &str, field_value: &T) -> (r: String)
    ensures
        r@ == tag_with_variant(base_tag@, field_value.variant()),
{
    match field_value.get_variant_tag() {
        Some(variant) => {
            if chars_eq(&to_chars(variant), &to_chars("NoOption")) {
                base_tag.to_string()
            } else {
                concat(base_tag, variant)
            }
        },
        None => base_tag.to_string(),
    }
}

/// Get field tag for MT serialization by stripping index suffix
pub fn get_field_tag_for_mt(tag: &str) -> (r: String)
    ensures
        r@ == base_tag(tag@),
{
    extract_base_tag(tag)
}

/// Check if a field tag is a numbered field (contains #)
pub fn is_numbered_field(tag: &str) -> (b: bool)
    ensures
        b == tag@.contains('#'),
{
    let t = to_chars(tag);
    let r = find_char(&t, '#', 0);
    proof {
        if r is None && tag@.contains('#') {
            let k = choose|k: int| 0 <= k < tag@.len() && tag@[k] == '#';
            lemma_find_from(t@, seq!['#'], 0);
            assert(t@.subrange(k, k + 1) =~= seq!['#']);
            assert(occurs_at(t@, seq!['#'], k));
        }
        if r is Some {
            assert(tag@[r->0 as int] == '#');
        }
    }
    r.is_some()
}

/// The numbered tag of a field: the first two fields 50 become "50#1" and
/// "50#2"; any other field is its base tag with its variant letter.
pub open spec fn numbered_tag(base: Seq<char>, variant: Option<Seq<char>>, index: int) -> Seq<char> {
    if base == "50"@ && index == 0 {
        "50#1"@
    } else if base == "50"@ && index == 1 {
        "50#2"@
    } else {
        match variant {
            Some(v) => base + v,
            None => base,
        }
    }
}

/// The view of an optional string slice.
pub open spec fn opt_str_view(o: Option<&str>) -> Option<Seq<char>> {
    match o {
        Some(s) => Some(s@),
        None => None,
    }
}

/// Map a variant-based field tag back to a numbered field tag based on context
/// This is used during MT parsing to restore numbered field distinction
pub fn map_variant_to_numbered(base_tag: &str, variant: Option<&str>, field_index: usize) -> (r:
    String)
    ensures
        r@ == numbered_tag(base_tag@, opt_str_view(variant), field_index as int),
{
    let is_50 = chars_eq(&to_chars(base_tag), &to_chars("50"));
    if is_50 && field_index == 0 {
        "50#1".to_string()
    } else if is_50 && field_index == 1 {
        "50#2".to_string()
    } else {
        match variant {
            Some(v) => concat(base_tag, v),
            None => base_tag.to_string(),
        }
    }
}

} // verus!

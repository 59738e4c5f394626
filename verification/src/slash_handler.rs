//! Slash prefixes of SWIFT component patterns: which kind a pattern has,
//! and how a value loses or gains its slashes.

use vstd::prelude::*;
use crate::numeric::{decimal, parse_usize, parse_usize_spec, usize_to_decimal, all_digits};
use crate::text::{
    append_chars, ends_with, ends_with_exec, from_chars, is_ascii_digit, slice_chars, starts_with,
    starts_with_exec, to_chars,
};

verus! {

/// Types of slash prefixes in SWIFT patterns
#[derive(Debug, Clone, Copy, PartialEq, Eq, Structural)]
pub enum SlashPrefixType {
    /// No slash prefix
    NoPrefix,
    /// Optional slash prefix: `[/34x]`
    Optional,
    /// Required slash prefix: `/34x`
    Required,
    /// Double slash prefix: `//16x`
    Double,
    /// Wrapped in slashes: `/8c/`
    Wrapper,
    /// Optional with numeric constraint: `[/5n]`
    OptionalNumeric(usize),
}

pub open spec fn slash() -> Seq<char> {
    seq!['/']
}

pub open spec fn double_slash() -> Seq<char> {
    seq!['/', '/']
}

/// `s` without the prefix `p`, if it has it.
pub open spec fn strip_prefix_or_keep(s: Seq<char>, p: Seq<char>) -> Seq<char> {
    if starts_with(s, p) {
        s.skip(p.len() as int)
    } else {
        s
    }
}

/// `s` without the suffix `p`, if it has it.
pub open spec fn strip_suffix_or_keep(s: Seq<char>, p: Seq<char>) -> Seq<char> {
    if ends_with(s, p) {
        s.take(s.len() - p.len())
    } else {
        s
    }
}

/// The length in a numeric pattern such as `5n`: at least two characters,
/// ending in `n`, and a number before it.
pub open spec fn numeric_length(p: Seq<char>) -> Option<int> {
    if p.len() >= 2 && p.last() == 'n' {
        parse_usize_spec(p.drop_last())
    } else {
        None
    }
}

/// The slash prefix type of a pattern.
pub open spec fn slash_type_of(p: Seq<char>) -> SlashPrefixType {
    if starts_with(p, slash()) && ends_with(p, slash()) && p.len() > 2 {
        SlashPrefixType::Wrapper
    } else if starts_with(p, seq!['[']) && ends_with(p, seq![']']) {
        let inner = p.subrange(1, p.len() - 1);
        if starts_with(inner, double_slash()) {
            SlashPrefixType::Double
        } else if starts_with(inner, slash()) {
            match numeric_length(inner.drop_first()) {
                Some(n) => SlashPrefixType::OptionalNumeric(n as usize),
                None => SlashPrefixType::Optional,
            }
        } else {
            SlashPrefixType::NoPrefix
        }
    } else if starts_with(p, slash()) {
        if starts_with(p, double_slash()) {
            SlashPrefixType::Double
        } else {
            SlashPrefixType::Required
        }
    } else {
        SlashPrefixType::NoPrefix
    }
}

/// A value with its slashes removed, or `None` where a numeric value is refused.
pub open spec fn parse_with_slash_spec(v: Seq<char>, t: SlashPrefixType) -> Option<Seq<char>> {
    match t {
        SlashPrefixType::NoPrefix => Some(v),
        SlashPrefixType::Optional | SlashPrefixType::Required => Some(
            strip_prefix_or_keep(v, slash()),
        ),
        SlashPrefixType::Double => Some(strip_prefix_or_keep(v, double_slash())),
        SlashPrefixType::Wrapper => Some(
            strip_suffix_or_keep(strip_prefix_or_keep(v, slash()), slash()),
        ),
        SlashPrefixType::OptionalNumeric(n) => {
            let w = strip_prefix_or_keep(v, slash());
            if all_digits(w) && w.len() <= n {
                Some(w)
            } else {
                None
            }
        },
    }
}

/// The error text for a refused numeric value.
pub open spec fn numeric_error_text(n: nat) -> Seq<char> {
    "Invalid numeric value: expected up to "@ + decimal(n) + " digits"@
}

/// A value with the slashes that its type asks for.
pub open spec fn serialize_with_slash_spec(v: Seq<char>, t: SlashPrefixType) -> Seq<char> {
    if v.len() == 0 && (t is Optional || t is OptionalNumeric) {
        Seq::<char>::empty()
    } else {
        match t {
            SlashPrefixType::NoPrefix => v,
            SlashPrefixType::Optional | SlashPrefixType::Required | SlashPrefixType::OptionalNumeric(
                _,
            ) => if starts_with(v, slash()) {
                v
            } else {
                slash() + v
            },
            SlashPrefixType::Double => if starts_with(v, double_slash()) {
                v
            } else if starts_with(v, slash()) {
                slash() + v
            } else {
                double_slash() + v
            },
            SlashPrefixType::Wrapper => slash() + strip_suffix_or_keep(
                strip_prefix_or_keep(v, slash()),
                slash(),
            ) + slash(),
        }
    }
}

/// A regular expression that accounts for the slash prefix of a pattern.
pub open spec fn slash_aware_regex_spec(t: SlashPrefixType, base: Seq<char>) -> Seq<char> {
    match t {
        SlashPrefixType::NoPrefix => base,
        SlashPrefixType::Optional => "(?:/"@ + base + ")?"@,
        SlashPrefixType::Required => "/("@ + base + ")"@,
        SlashPrefixType::Double => "//("@ + base + ")"@,
        SlashPrefixType::Wrapper => "/("@ + base + ")/"@,
        SlashPrefixType::OptionalNumeric(_) => "(?:/("@ + base + ")?)"@,
    }
}

/// Trait for handling slash prefixes in SWIFT components
pub trait SlashPrefixHandler {
    /// Extract the slash prefix type from a pattern
    fn get_slash_type(pattern: &str) -> SlashPrefixType
    ;

    /// Parse value removing slash prefix
    fn parse_with_slash(value: &str, slash_type: SlashPrefixType) -> Result<String, String>;

    /// Serialize value adding slash prefix
    fn serialize_with_slash(value: &str, slash_type: SlashPrefixType) -> String;

    /// Check if a pattern contains any slash prefix
    fn has_slash_prefix(pattern: &str) -> bool
    ;

    /// Get regex pattern that handles the slash prefix correctly
    fn get_slash_aware_regex(pattern: &str, base_regex: &str) -> String
    ;
}

/// Default implementation of slash prefix handling
pub struct SwiftSlashHandler;

/// `v` without the prefix `p`, if it has it.
fn strip_prefix_chars(v: &Vec<char>, p: &Vec<char>) -> (r: Vec<char>)
    ensures
        r@ == strip_prefix_or_keep(v@, p@),
{
    if starts_with_exec(v, p) {
        slice_chars(v, p.len(), v.len())
    } else {
        slice_chars(v, 0, v.len())
    }
}

/// `v` without the suffix `p`, if it has it.
fn strip_suffix_chars(v: &Vec<char>, p: &Vec<char>) -> (r: Vec<char>)
    ensures
        r@ == strip_suffix_or_keep(v@, p@),
{
    if ends_with_exec(v, p) {
        slice_chars(v, 0, v.len() - p.len())
    } else {
        slice_chars(v, 0, v.len())
    }
}

/// All characters of `v` are ASCII digits.
fn all_digits_exec(v: &Vec<char>) -> (r: bool)
    ensures
        r == all_digits(v@),
{
    let mut i: usize = 0;
    while i < v.len()
        invariant
            i <= v.len(),
            forall|j: int| 0 <= j < i ==> is_ascii_digit(#[trigger] v@[j]),
        decreases v.len() - i,
    {
        if !('0' <= v[i] && v[i] <= '9') {
            assert(!is_ascii_digit(v@[i as int]));
            return false;
        }
        i = i + 1;
    }
    true
}

/// The number in a pattern such as `5n`.
fn extract_numeric_length(pattern: &Vec<char>) -> (r: Option<usize>)
    ensures
        match r {
            Some(n) => numeric_length(pattern@) == Some(n as int),
            None => numeric_length(pattern@) is None,
        },
{
    if pattern.len() >= 2 && pattern[pattern.len() - 1] == 'n' {
        let head = slice_chars(pattern, 0, pattern.len() - 1);
        assert(head@ =~= pattern@.drop_last());
        parse_usize(&head)
    } else {
        None
    }
}

fn slash_type_chars(p: &Vec<char>) -> (t: SlashPrefixType)
    ensures
        t == slash_type_of(p@),
{
    let sl: Vec<char> = vec!['/'];
    let dsl: Vec<char> = vec!['/', '/'];
    let open: Vec<char> = vec!['['];
    let close: Vec<char> = vec![']'];
    assert(sl@ =~= slash());
    assert(dsl@ =~= double_slash());
    assert(open@ =~= seq!['[']);
    assert(close@ =~= seq![']']);
    if starts_with_exec(p, &sl) && ends_with_exec(p, &sl) && p.len() > 2 {
        return SlashPrefixType::Wrapper;
    }
    if starts_with_exec(p, &open) && ends_with_exec(p, &close) {
        if p.len() < 2 {
            proof {
                assert(p@.subrange(0, 1)[0] == p@[0]);
                assert(p@.subrange(p.len() - 1, p.len() as int)[0] == p@[p.len() - 1]);
            }
        }
        let inner = slice_chars(p, 1, p.len() - 1);
        if starts_with_exec(&inner, &dsl) {
            return SlashPrefixType::Double;
        }
        if starts_with_exec(&inner, &sl) {
            let stripped = slice_chars(&inner, 1, inner.len());
            assert(stripped@ =~= inner@.drop_first());
            match extract_numeric_length(&stripped) {
                Some(n) => {
                    return SlashPrefixType::OptionalNumeric(n);
                },
                None => {
                    return SlashPrefixType::Optional;
                },
            }
        }
        return SlashPrefixType::NoPrefix;
    }
    if starts_with_exec(p, &sl) {
        if starts_with_exec(p, &dsl) {
            return SlashPrefixType::Double;
        }
        return SlashPrefixType::Required;
    }
    SlashPrefixType::NoPrefix
}

impl SlashPrefixHandler for SwiftSlashHandler {
    fn get_slash_type(pattern: &str) -> (t: SlashPrefixType)
        ensures
            t == slash_type_of(pattern@),
    {
        let p = to_chars(pattern);
        slash_type_chars(&p)
    }

    fn parse_with_slash(value: &str, slash_type: SlashPrefixType) -> (r: Result<String, String>)
        ensures
            match parse_with_slash_spec(value@, slash_type) {
                Some(w) => r is Ok && r->Ok_0@ == w,
                None => r is Err && r->Err_0@ == numeric_error_text(
                    slash_type->OptionalNumeric_0 as nat,
                ),
            },
    {
        let v = to_chars(value);
        let sl: Vec<char> = vec!['/'];
        let dsl: Vec<char> = vec!['/', '/'];
        assert(sl@ =~= slash());
        assert(dsl@ =~= double_slash());
        match slash_type {
            SlashPrefixType::NoPrefix => Ok(from_chars(&v)),
            SlashPrefixType::Optional | SlashPrefixType::Required => {
                let w = strip_prefix_chars(&v, &sl);
                Ok(from_chars(&w))
            },
            SlashPrefixType::Double => {
                let w = strip_prefix_chars(&v, &dsl);
                Ok(from_chars(&w))
            },
            SlashPrefixType::Wrapper => {
                let t = strip_prefix_chars(&v, &sl);
                let w = strip_suffix_chars(&t, &sl);
                Ok(from_chars(&w))
            },
            SlashPrefixType::OptionalNumeric(n) => {
                let w = strip_prefix_chars(&v, &sl);
                if all_digits_exec(&w) && w.len() <= n {
                    Ok(from_chars(&w))
                } else {
                    let mut msg = to_chars("Invalid numeric value: expected up to ");
                    let digits = usize_to_decimal(n);
                    append_chars(&mut msg, &digits);
                    let tail = to_chars(" digits");
                    append_chars(&mut msg, &tail);
                    Err(from_chars(&msg))
                }
            },
        }
    }

    fn serialize_with_slash(value: &str, slash_type: SlashPrefixType) -> (r: String)
        ensures
            r@ == serialize_with_slash_spec(value@, slash_type),
    {
        let v = to_chars(value);
        let sl: Vec<char> = vec!['/'];
        let dsl: Vec<char> = vec!['/', '/'];
        assert(sl@ =~= slash());
        assert(dsl@ =~= double_slash());
        if v.len() == 0 && (matches!(slash_type, SlashPrefixType::Optional) || matches!(
            slash_type,
            SlashPrefixType::OptionalNumeric(_)
        )) {
            return from_chars(&Vec::new());
        }
        match slash_type {
            SlashPrefixType::NoPrefix => from_chars(&v),
            SlashPrefixType::Optional | SlashPrefixType::Required | SlashPrefixType::OptionalNumeric(
                _,
            ) => {
                if !starts_with_exec(&v, &sl) {
                    let mut r = sl.clone();
                    append_chars(&mut r, &v);
                    from_chars(&r)
                } else {
                    from_chars(&v)
                }
            },
            SlashPrefixType::Double => {
                if starts_with_exec(&v, &dsl) {
                    from_chars(&v)
                } else if starts_with_exec(&v, &sl) {
                    let mut r = sl.clone();
                    append_chars(&mut r, &v);
                    from_chars(&r)
                } else {
                    let mut r = dsl.clone();
                    append_chars(&mut r, &v);
                    from_chars(&r)
                }
            },
            SlashPrefixType::Wrapper => {
                let t = strip_prefix_chars(&v, &sl);
                let t = strip_suffix_chars(&t, &sl);
                let mut r = sl.clone();
                append_chars(&mut r, &t);
                append_chars(&mut r, &sl);
                from_chars(&r)
            },
        }
    }

    fn has_slash_prefix(pattern: &str) -> (r: bool)
        ensures
            r == !(slash_type_of(pattern@) is NoPrefix),
    {
        let t = Self::get_slash_type(pattern);
        !matches!(t, SlashPrefixType::NoPrefix)
    }

    fn get_slash_aware_regex(pattern: &str, base_regex: &str) -> (r: String)
        ensures
            r@ == slash_aware_regex_spec(slash_type_of(pattern@), base_regex@),
    {
        let t = Self::get_slash_type(pattern);
        let base = to_chars(base_regex);
        let (pre, post) = match t {
            SlashPrefixType::NoPrefix => ("", ""),
            SlashPrefixType::Optional => ("(?:/", ")?"),
            SlashPrefixType::Required => ("/(", ")"),
            SlashPrefixType::Double => ("//(", ")"),
            SlashPrefixType::Wrapper => ("/(", ")/"),
            SlashPrefixType::OptionalNumeric(_) => ("(?:/(", ")?)"),
        };
        let mut r = to_chars(pre);
        append_chars(&mut r, &base);
        let tail = to_chars(post);
        append_chars(&mut r, &tail);
        proof {
            reveal_strlit("");
            reveal_strlit("(?:/");
            reveal_strlit(")?");
            reveal_strlit("/(");
            reveal_strlit(")");
            reveal_strlit("//(");
            reveal_strlit(")/");
            reveal_strlit("(?:/(");
            reveal_strlit(")?)");
            if t is NoPrefix {
                assert(r@ =~= base@);
            }
        }
        from_chars(&r)
    }
}

/// A value that carries no slash of its own where its type puts one: no
/// leading slash, and for a wrapped value no trailing slash either; a
/// value with an optional numeric prefix is all digits, and no longer than
/// its limit.
pub open spec fn bare_value(v: Seq<char>, t: SlashPrefixType) -> bool {
    &&& !starts_with(v, slash())
    &&& t is Wrapper ==> !ends_with(v, slash())
    &&& t matches SlashPrefixType::OptionalNumeric(n) ==> all_digits(v) && v.len() <= n
}

/// Serialising with slashes is idempotent: a value written with the
/// slashes of its type is written again unchanged.
pub proof fn lemma_serialize_idempotent(v: Seq<char>, t: SlashPrefixType)
    ensures
        serialize_with_slash_spec(serialize_with_slash_spec(v, t), t) == serialize_with_slash_spec(v, t),
{
    let w = serialize_with_slash_spec(v, t);
    if v.len() == 0 && (t is Optional || t is OptionalNumeric) {
    } else {
        match t {
            SlashPrefixType::NoPrefix => {},
            SlashPrefixType::Optional | SlashPrefixType::Required | SlashPrefixType::OptionalNumeric(_) => {
                if !starts_with(v, slash()) {
                    assert((slash() + v).subrange(0, 1) =~= slash());
                }
            },
            SlashPrefixType::Double => {
                if starts_with(v, double_slash()) {
                } else if starts_with(v, slash()) {
                    assert(v.subrange(0, 1) == slash());
                    assert(v.subrange(0, 1)[0] == '/');
                    assert(v[0] == '/');
                    assert((slash() + v).subrange(0, 2) =~= double_slash());
                } else {
                    assert((double_slash() + v).subrange(0, 2) =~= double_slash());
                }
            },
            SlashPrefixType::Wrapper => {
                let inner = strip_suffix_or_keep(strip_prefix_or_keep(v, slash()), slash());
                assert(w == slash() + inner + slash());
                assert(w.subrange(0, 1) =~= slash());
                assert(w.skip(1) =~= inner + slash());
                let p = w.skip(1);
                assert(p.subrange(p.len() - 1, p.len() as int) =~= slash());
                assert(p.take(p.len() - 1) =~= inner);
            },
        }
    }
}

/// Reading back what was written: a bare value written with the slashes
/// of its type is read back as itself.
pub proof fn lemma_parse_serialize(v: Seq<char>, t: SlashPrefixType)
    requires
        bare_value(v, t),
    ensures
        parse_with_slash_spec(serialize_with_slash_spec(v, t), t) == Some(v),
{
    let w = serialize_with_slash_spec(v, t);
    if v.len() == 0 && (t is Optional || t is OptionalNumeric) {
        assert(!starts_with(Seq::<char>::empty(), slash()));
        assert(v =~= Seq::<char>::empty());
        assert(w =~= Seq::<char>::empty());
        assert(strip_prefix_or_keep(w, slash()) =~= v);
    } else {
        match t {
            SlashPrefixType::NoPrefix => {
                assert(parse_with_slash_spec(w, t) == Some(v));
            },
            SlashPrefixType::Optional | SlashPrefixType::Required | SlashPrefixType::OptionalNumeric(_) => {
                assert((slash() + v).subrange(0, 1) =~= slash());
                assert((slash() + v).skip(1) =~= v);
                assert(w == slash() + v);
                assert(parse_with_slash_spec(w, t) == Some(v));
            },
            SlashPrefixType::Double => {
                if starts_with(v, double_slash()) {
                    assert(v.subrange(0, 2)[0] == '/');
                    assert(v.subrange(0, 1) =~= slash());
                    assert(false);
                }
                assert((double_slash() + v).subrange(0, 2) =~= double_slash());
                assert((double_slash() + v).skip(2) =~= v);
                assert(w == double_slash() + v);
                assert(parse_with_slash_spec(w, t) == Some(v));
            },
            SlashPrefixType::Wrapper => {
                assert(strip_prefix_or_keep(v, slash()) == v);
                assert(strip_suffix_or_keep(v, slash()) == v);
                assert(w == slash() + v + slash());
                assert(w.subrange(0, 1) =~= slash());
                assert(w.skip(1) =~= v + slash());
                let p = v + slash();
                assert(p.subrange(p.len() - 1, p.len() as int) =~= slash());
                assert(p.take(p.len() - 1) =~= v);
                assert(parse_with_slash_spec(w, t) == Some(v));
            },
        }
    }
}

} // verus!

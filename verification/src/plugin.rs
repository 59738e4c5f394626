//! The work of the dataflow functions that parse, publish and validate MT
//! messages: undoing the escapes of a payload, choosing how a parsed
//! message is processed, putting variant letters back into field 50, and
//! the texts of validation errors.  Reading the message data and writing
//! the results back is left to the dataflow glue.

use vstd::prelude::*;
use crate::errors::{error_text, ParseError, ValidationError, ValidationResult};
use crate::numeric::{decimal, usize_to_decimal};
use crate::headers::validation_flag_of;
use crate::parsed_message::{auto_parsed, ParsedSwiftMessage};
use crate::parser::SwiftParser;
use crate::swift_message::mur_holds;
use crate::text::{
    append_chars, from_chars, occurs_at, occurs_at_exec, string_chars, to_chars, to_owned_string,
    trim, trim_chars,
};
use crate::traits::SwiftMessageBody;

verus! {

// ---------------------------------------------------------------------------
// Replacing text
// ---------------------------------------------------------------------------

/// `s` with every occurrence of `p` replaced by `r`, scanning from the left
/// and not looking again inside a replaced occurrence (`str::replace`); an
/// empty `p` leaves `s` unchanged.
pub open spec fn replaced(s: Seq<char>, p: Seq<char>, r: Seq<char>) -> Seq<char>
    decreases s.len(),
{
    if s.len() == 0 || p.len() == 0 {
        s
    } else if occurs_at(s, p, 0) {
        r + replaced(s.skip(p.len() as int), p, r)
    } else {
        seq![s[0]] + replaced(s.skip(1), p, r)
    }
}

/// Replacing a pattern that starts with a backslash leaves a text without
/// backslashes unchanged.
proof fn lemma_replaced_absent(s: Seq<char>, p: Seq<char>, r: Seq<char>)
    requires
        p.len() > 0,
        p[0] == '\\',
        !s.contains('\\'),
    ensures
        replaced(s, p, r) == s,
    decreases s.len(),
{
    if s.len() > 0 {
        if occurs_at(s, p, 0) {
            assert(s.subrange(0, p.len() as int)[0] == s[0]);
            assert(s.contains('\\'));
        }
        assert(!s.skip(1).contains('\\')) by {
            if s.skip(1).contains('\\') {
                let k = choose|k: int| 0 <= k < s.skip(1).len() && s.skip(1)[k] == '\\';
                assert(s[k + 1] == '\\');
            }
        }
        lemma_replaced_absent(s.skip(1), p, r);
        assert(seq![s[0]] + s.skip(1) =~= s);
    }
}

proof fn lemma_steps_absent(s: Seq<char>, steps: Seq<(Seq<char>, Seq<char>)>)
    requires
        !s.contains('\\'),
        forall|i: int| 0 <= i < steps.len() ==> (#[trigger] steps[i]).0.len() > 0 && steps[i].0[0] == '\\',
    ensures
        apply_steps(s, steps) == s,
    decreases steps.len(),
{
    if steps.len() > 0 {
        lemma_steps_absent(s, steps.drop_last());
        assert(steps.drop_last().len() < steps.len());
        let l = steps.last();
        assert(l == steps[steps.len() - 1]);
        lemma_replaced_absent(s, l.0, l.1);
    }
}

/// A payload with no backslash and no enclosing double quotes is only
/// trimmed: unescaping leaves plain messages as they are.
pub proof fn lemma_plain_payload(s: Seq<char>)
    requires
        !trim(s).contains('\\'),
        !(trim(s).len() > 1 && trim(s)[0] == '"' && trim(s).last() == '"'),
    ensures
        unescaped(s) == trim(s),
{
    reveal_strlit("\\r\\n");
    reveal_strlit("\\r");
    reveal_strlit("\\n");
    reveal_strlit("\\t");
    reveal_strlit("\\\"");
    reveal_strlit("\\'");
    reveal_strlit("\\\\");
    reveal_strlit("\\u0020");
    reveal_strlit("\\u0022");
    reveal_strlit("\\u003C");
    reveal_strlit("\\u003E");
    reveal_strlit("\\u003D");
    reveal_strlit("\\u002F");
    let st = unescape_steps();
    assert forall|i: int| 0 <= i < st.len() implies (#[trigger] st[i]).0.len() > 0 && st[i].0[0] == '\\' by {
    }
    lemma_steps_absent(trim(s), st);
}

/// `s` with every occurrence of `p` replaced by `r`.
pub fn replace_all(s: &Vec<char>, p: &Vec<char>, r: &Vec<char>) -> (out: Vec<char>)
    ensures
        out@ == replaced(s@, p@, r@),
{
    if p.len() == 0 {
        return s.clone();
    }
    let mut out: Vec<char> = Vec::new();
    let mut i: usize = 0;
    assert(s@.skip(0) =~= s@);
    while i < s.len()
        invariant
            i <= s.len(),
            p.len() > 0,
            out@ + replaced(s@.skip(i as int), p@, r@) == replaced(s@, p@, r@),
        decreases s.len() - i,
    {
        let ghost rest = s@.skip(i as int);
        if occurs_at_exec(s, p, i) {
            proof {
                assert(rest.subrange(0, p@.len() as int) =~= s@.subrange(i as int, i + p@.len()));
                assert(occurs_at(rest, p@, 0));
                assert(rest.skip(p@.len() as int) =~= s@.skip(i + p@.len()));
                assert(out@ + r@ + replaced(s@.skip(i + p@.len()), p@, r@) =~= out@ + (r@
                    + replaced(rest.skip(p@.len() as int), p@, r@)));
            }
            append_chars(&mut out, r);
            i = i + p.len();
        } else {
            proof {
                if occurs_at(rest, p@, 0) {
                    assert(rest.subrange(0, p@.len() as int) =~= s@.subrange(i as int, i + p@.len()));
                }
                assert(rest.skip(1) =~= s@.skip(i + 1));
                assert(rest[0] == s@[i as int]);
                assert(out@.push(s@[i as int]) + replaced(s@.skip(i + 1), p@, r@) =~= out@ + (
                seq![rest[0]] + replaced(rest.skip(1), p@, r@)));
            }
            out.push(s[i]);
            i = i + 1;
        }
    }
    assert(s@.skip(i as int) =~= Seq::<char>::empty());
    assert(out@ + Seq::<char>::empty() =~= out@);
    out
}

/// The escape sequences a payload may carry, each with what it stands
/// for, in the order in which they are undone.
pub open spec fn unescape_steps() -> Seq<(Seq<char>, Seq<char>)> {
    seq![
        ("\\r\\n"@, "\n"@),
        ("\\r"@, "\r"@),
        ("\\n"@, "\n"@),
        ("\\t"@, "\t"@),
        ("\\\""@, "\""@),
        ("\\'"@, "'"@),
        ("\\\\"@, "\\"@),
        ("\\u0020"@, " "@),
        ("\\u0022"@, "\""@),
        ("\\u003C"@, "<"@),
        ("\\u003E"@, ">"@),
        ("\\u003D"@, "="@),
        ("\\u002F"@, "/"@),
    ]
}

/// `s` after the replacements of `steps`, one after the other.
pub open spec fn apply_steps(s: Seq<char>, steps: Seq<(Seq<char>, Seq<char>)>) -> Seq<char>
    decreases steps.len(),
{
    if steps.len() == 0 {
        s
    } else {
        replaced(apply_steps(s, steps.drop_last()), steps.last().0, steps.last().1)
    }
}

/// The payload trimmed, without the double quotes that enclose it, if any.
pub open spec fn unquoted(s: Seq<char>) -> Seq<char> {
    let t = trim(s);
    if t.len() > 1 && t[0] == '"' && t.last() == '"' {
        t.subrange(1, t.len() - 1)
    } else {
        t
    }
}

/// A payload with its escapes undone.
pub open spec fn unescaped(s: Seq<char>) -> Seq<char> {
    apply_steps(unquoted(s), unescape_steps())
}

/// The processing method of a parsed message: MT103 by its reject and
/// return codes and its STP flag; MT202 and MT205 by their codes, their
/// cover flag and the validation flag of block 3; all others "normal".
pub open spec fn method_of(m: ParsedSwiftMessage) -> Seq<char> {
    match m {
        ParsedSwiftMessage::MT103(x) => if (mur_holds(*x, "REJT"@) || x.fields.rejected()) {
            "reject"@
        } else if (mur_holds(*x, "RETN"@) || x.fields.returned()) {
            "return"@
        } else if x.fields.stp() {
            "stp"@
        } else {
            "normal"@
        },
        ParsedSwiftMessage::MT202(x) => flagged_method(
            (mur_holds(*x, "REJT"@) || x.fields.rejected()),
            (mur_holds(*x, "RETN"@) || x.fields.returned()),
            x.fields.cover(),
            flag_of(x.user_header),
        ),
        ParsedSwiftMessage::MT205(x) => flagged_method(
            (mur_holds(*x, "REJT"@) || x.fields.rejected()),
            (mur_holds(*x, "RETN"@) || x.fields.returned()),
            x.fields.cover(),
            flag_of(x.user_header),
        ),
        _ => "normal"@,
    }
}

/// The validation flag of a user header, if there is one.
pub open spec fn flag_of(h: Option<crate::headers::UserHeader>) -> Option<Seq<char>> {
    match h {
        Some(u) => match u.validation_flag {
            Some(f) => Some(f@),
            None => None,
        },
        None => None,
    }
}

/// The method of a message with codes, a cover flag and a validation flag.
pub open spec fn flagged_method(
    reject: bool,
    ret: bool,
    cover: bool,
    flag: Option<Seq<char>>,
) -> Seq<char> {
    if reject || flag == Some("REJT"@) {
        "reject"@
    } else if ret || flag == Some("RETN"@) {
        "return"@
    } else if cover || flag == Some("COV"@) {
        "cover"@
    } else {
        "normal"@
    }
}

/// `a@ == b`, for a literal `b`.
fn is_text(a: &Option<String>, b: &str) -> (r: bool)
    ensures
        r == (a matches Some(x) && x@ == b@),
{
    match a {
        Some(x) => crate::text::chars_eq(&string_chars(x), &to_chars(b)),
        None => false,
    }
}

/// The validation flag of an optional user header.
fn header_flag(h: &Option<crate::headers::UserHeader>) -> (r: Option<String>)
    ensures
        match flag_of(*h) {
            Some(f) => r matches Some(x) && x@ == f,
            None => r is None,
        },
{
    match h {
        Some(u) => match &u.validation_flag {
            Some(f) => Some(f.clone()),
            None => None,
        },
        None => None,
    }
}

/// The method of a message with codes, a cover flag and a validation flag.
fn flagged_method_exec(reject: bool, ret: bool, cover: bool, flag: &Option<String>) -> (r:
    &'static str)
    ensures
        r@ == flagged_method(reject, ret, cover, opt_string_view(*flag)),
{
    if reject || is_text(flag, "REJT") {
        "reject"
    } else if ret || is_text(flag, "RETN") {
        "return"
    } else if cover || is_text(flag, "COV") {
        "cover"
    } else {
        "normal"
    }
}

/// The view of an optional string.
pub open spec fn opt_string_view(o: Option<String>) -> Option<Seq<char>> {
    match o {
        Some(s) => Some(s@),
        None => None,
    }
}

/// Function handler that parses MT messages into their structured form.
pub struct Parse;

/// A parsed payload: its message type, its processing method, the message.
pub struct ParsedPayload {
    pub message_type: String,
    pub method: String,
    pub message: ParsedSwiftMessage,
}

impl Parse {
    /// Undo the escapes of a payload: trim it, drop enclosing double quotes,
    /// then replace each escape sequence by what it stands for.
    pub fn manual_unescape(input: &str) -> (r: String)
        ensures
            r@ == unescaped(input@),
    {
        let t = trim_chars(&to_chars(input));
        let mut cur: Vec<char> = if t.len() > 1 && t[0] == '"' && t[t.len() - 1] == '"' {
            crate::text::slice_chars(&t, 1, t.len() - 1)
        } else {
            t
        };
        assert(cur@ == unquoted(input@));
        let steps: Vec<(&str, &str)> = vec![
            ("\\r\\n", "\n"),
            ("\\r", "\r"),
            ("\\n", "\n"),
            ("\\t", "\t"),
            ("\\\"", "\""),
            ("\\'", "'"),
            ("\\\\", "\\"),
            ("\\u0020", " "),
            ("\\u0022", "\""),
            ("\\u003C", "<"),
            ("\\u003E", ">"),
            ("\\u003D", "="),
            ("\\u002F", "/"),
        ];
        let ghost sv = steps@.map_values(|x: (&str, &str)| (x.0@, x.1@));
        assert(sv =~= unescape_steps());
        let mut k: usize = 0;
        assert(sv.take(0) =~= Seq::<(Seq<char>, Seq<char>)>::empty());
        while k < steps.len()
            invariant
                k <= steps.len(),
                sv == steps@.map_values(|x: (&str, &str)| (x.0@, x.1@)),
                cur@ == apply_steps(unquoted(input@), sv.take(k as int)),
            decreases steps.len() - k,
        {
            let (from, to) = steps[k];
            cur = replace_all(&cur, &to_chars(from), &to_chars(to));
            assert(sv.take(k + 1).drop_last() =~= sv.take(k as int));
            k = k + 1;
        }
        assert(sv.take(steps.len() as int) =~= sv);
        from_chars(&cur)
    }

    /// The processing method of a parsed message.
    pub fn processing_method(message: &ParsedSwiftMessage) -> (r: &'static str)
        ensures
            r@ == method_of(*message),
    {
        match message {
            ParsedSwiftMessage::MT103(x) => {
                if x.has_reject_codes() {
                    "reject"
                } else if x.has_return_codes() {
                    "return"
                } else if x.is_stp_message() {
                    "stp"
                } else {
                    "normal"
                }
            },
            ParsedSwiftMessage::MT202(x) => flagged_method_exec(
                x.has_reject_codes(),
                x.has_return_codes(),
                x.is_cover_message(),
                &header_flag(&x.user_header),
            ),
            ParsedSwiftMessage::MT205(x) => flagged_method_exec(
                x.has_reject_codes(),
                x.has_return_codes(),
                x.is_cover_message(),
                &header_flag(&x.user_header),
            ),
            _ => "normal",
        }
    }

    /// Parse an escaped payload: the message, its type and its processing
    /// method, or the error of the parser.
    pub fn parse_swift_mt(payload: &str) -> (r: Result<ParsedPayload, ParseError>)
        ensures
            match r {
                Ok(p) => p.message_type@ == p.message.type_view() && p.method@ == method_of(
                    p.message,
                ) && auto_parsed(unescaped(payload@), Ok(p.message)),
                Err(e) => auto_parsed(unescaped(payload@), Err(e)),
            },
    {
        let text = Self::manual_unescape(payload);
        match SwiftParser::parse_auto(text.as_str()) {
            Ok(message) => {
                let message_type = to_owned_string(message.message_type());
                let method = to_owned_string(Self::processing_method(&message));
                Ok(ParsedPayload { message_type, method, message })
            },
            Err(e) => Err(e),
        }
    }
}

// ---------------------------------------------------------------------------
// Publishing: variant letters of numbered enum fields
// ---------------------------------------------------------------------------

/// The index of the `n`-th occurrence of `p` in `s` at or after `from`,
/// each search starting after the previous occurrence.
pub open spec fn nth_from(s: Seq<char>, p: Seq<char>, n: nat, from: int) -> Option<int>
    decreases n,
{
    match crate::text::find_from(s, p, from) {
        Some(k) => if n == 0 {
            Some(k)
        } else {
            nth_from(s, p, (n - 1) as nat, k + p.len())
        },
        None => None,
    }
}

/// `s` with its `n`-th field tag `:50:` given the variant letter `v`, and
/// whether there was such a tag.
pub open spec fn with_field_50(s: Seq<char>, n: nat, v: Seq<char>) -> (Seq<char>, bool) {
    match nth_from(s, ":50:"@, n, 0) {
        Some(k) => (s.take(k) + ":50"@ + v + ":"@ + s.skip(k + 4), true),
        None => (s, false),
    }
}

/// Give the `n`-th field tag `:50:` of `message` the variant letter
/// `variant`; false where the message has no such tag.
pub fn replace_nth_field_50(message: &mut String, n: usize, variant: &str) -> (found: bool)
    ensures
        (final(message)@, found) == with_field_50(old(message)@, n as nat, variant@),
{
    let s = string_chars(message);
    let target = to_chars(":50:");
    proof {
        reveal_strlit(":50:");
    }
    let mut count: usize = 0;
    let mut pos: usize = 0;
    while pos <= s.len()
        invariant
            s@ == old(message)@,
            *message == *old(message),
            target@ == ":50:"@,
            target@.len() == 4,
            count <= n,
            pos <= s.len() + 4,
            nth_from(s@, target@, n as nat, 0) == nth_from(s@, target@, (n - count) as nat, pos as int),
        decreases s.len() + 4 - pos,
    {
        match crate::text::find_exec(&s, &target, pos) {
            Some(k) => {
                proof {
                    crate::text::lemma_find_from(s@, target@, pos as int);
                }
                if count == n {
                    let mut out = crate::text::slice_chars(&s, 0, k);
                    append_chars(&mut out, &to_chars(":50"));
                    append_chars(&mut out, &to_chars(variant));
                    append_chars(&mut out, &to_chars(":"));
                    append_chars(&mut out, &crate::text::slice_chars(&s, k + 4, s.len()));
                    proof {
                        assert(s@.subrange(0, k as int) =~= s@.take(k as int));
                        assert(s@.subrange(k + 4, s@.len() as int) =~= s@.skip(k + 4));
                    }
                    *message = from_chars(&out);
                    return true;
                }
                count = count + 1;
                pos = k + 4;
            },
            None => {
                return false;
            },
        }
    }
    proof {
        crate::text::lemma_find_from(s@, target@, pos as int);
    }
    false
}

/// `s` with `tag` (such as `:60:`) replaced by the tag with the variant
/// letter, if a variant is given.
pub open spec fn with_variant(s: Seq<char>, digits: Seq<char>, v: Option<Seq<char>>) -> Seq<char> {
    match v {
        Some(x) => replaced(s, ":"@ + digits + ":"@, ":"@ + digits + x + ":"@),
        None => s,
    }
}

/// The variant letters of the numbered enum fields of one level of a
/// message (its top level or one transaction), each where it has one.
#[derive(Debug, Clone)]
pub struct EnumVariants {
    pub field_50_1: Option<String>,
    pub field_50_2: Option<String>,
    pub field_60: Option<String>,
    pub field_62: Option<String>,
}

/// `s` with the `n`-th `:50:` given variant `v`, if one is given.
pub open spec fn with_opt_50(s: Seq<char>, n: nat, v: Option<String>) -> Seq<char> {
    match v {
        Some(x) => with_field_50(s, n, x@).0,
        None => s,
    }
}

/// One level of fixes: fields 50#1 and 50#2 (the second at occurrence
/// `second`), then all fields 60 and 62.
pub open spec fn fix_level(s: Seq<char>, v: EnumVariants, second: nat) -> Seq<char> {
    let a = with_opt_50(s, 0, v.field_50_1);
    let b = with_opt_50(a, second, v.field_50_2);
    let c = with_variant(b, "60"@, opt_string_view(v.field_60));
    with_variant(c, "62"@, opt_string_view(v.field_62))
}

/// The message after the top level's fixes and each transaction's, in order.
pub open spec fn fixed_message(s: Seq<char>, top: EnumVariants, txs: Seq<EnumVariants>) -> Seq<char>
    decreases txs.len(),
{
    if txs.len() == 0 {
        fix_level(s, top, 1)
    } else {
        fix_level(fixed_message(s, top, txs.drop_last()), txs.last(), 0)
    }
}

/// Replace every `:<digits>:` of `s` by `:<digits><variant>:`.
fn put_variant(s: &mut String, digits: &str, variant: &Option<String>)
    ensures
        final(s)@ == with_variant(old(s)@, digits@, opt_string_view(*variant)),
{
    if let Some(v) = variant {
        let mut from = to_chars(":");
        append_chars(&mut from, &to_chars(digits));
        append_chars(&mut from, &to_chars(":"));
        let mut to = to_chars(":");
        append_chars(&mut to, &to_chars(digits));
        append_chars(&mut to, &string_chars(v));
        append_chars(&mut to, &to_chars(":"));
        let r = replace_all(&string_chars(s), &from, &to);
        *s = from_chars(&r);
    }
}

/// One level of fixes.
fn fix_one_level(s: &mut String, v: &EnumVariants, second: usize)
    ensures
        final(s)@ == fix_level(old(s)@, *v, second as nat),
{
    if let Some(x) = &v.field_50_1 {
        replace_nth_field_50(s, 0, x.as_str());
    }
    if let Some(x) = &v.field_50_2 {
        replace_nth_field_50(s, second, x.as_str());
    }
    put_variant(s, "60", &v.field_60);
    put_variant(s, "62", &v.field_62);
}

/// Function handler that publishes structured messages as MT text.
pub struct Publish;

impl Publish {
    /// Add the variant letters of numbered enum fields to an MT message:
    /// first those of the message's top level, then those of each
    /// transaction, in order.
    pub fn fix_numbered_enum_fields_in_mt(
        mt_message: &str,
        top: &EnumVariants,
        transactions: &Vec<EnumVariants>,
    ) -> (r: String)
        ensures
            r@ == fixed_message(mt_message@, *top, transactions@),
    {
        let mut s = to_owned_string(mt_message);
        fix_one_level(&mut s, top, 1);
        let mut i: usize = 0;
        while i < transactions.len()
            invariant
                i <= transactions.len(),
                s@ == fixed_message(mt_message@, *top, transactions@.take(i as int)),
            decreases transactions.len() - i,
        {
            fix_one_level(&mut s, &transactions[i], 0);
            assert(transactions@.take(i + 1).drop_last() =~= transactions@.take(i as int));
            i = i + 1;
        }
        assert(transactions@.take(transactions.len() as int) =~= transactions@);
        s
    }

    /// The message type without any leading "MT" (`trim_start_matches("MT")`).
    pub fn normalize_message_type(message_type: &str) -> (r: String)
        ensures
            r@ == without_mt(message_type@),
    {
        let s = to_chars(message_type);
        let mut i: usize = 0;
        assert(s@.skip(0) =~= s@);
        while s.len() - i >= 2 && s[i] == 'M' && s[i + 1] == 'T'
            invariant
                i <= s.len(),
                without_mt(s@.skip(i as int)) == without_mt(message_type@),
                s@ == message_type@,
            decreases s.len() - i,
        {
            assert(s@.skip(i as int).skip(2) =~= s@.skip(i + 2));
            i = i + 2;
        }
        let r = crate::text::slice_chars(&s, i, s.len());
        assert(r@ =~= s@.skip(i as int));
        from_chars(&r)
    }
}

/// `s` without its leading repetitions of "MT".
pub open spec fn without_mt(s: Seq<char>) -> Seq<char>
    decreases s.len(),
{
    if s.len() >= 2 && s[0] == 'M' && s[1] == 'T' {
        without_mt(s.skip(2))
    } else {
        s
    }
}

// ---------------------------------------------------------------------------
// Validating: the texts of the errors
// ---------------------------------------------------------------------------

/// The text of a validation error.
pub open spec fn validation_error_text(e: ValidationError) -> Seq<char> {
    match e {
        ValidationError::FormatValidation { field_tag, message } => "Field "@ + field_tag@
            + ": Format validation failed - "@ + message@,
        ValidationError::LengthValidation { field_tag, expected, actual } => "Field "@
            + field_tag@ + ": Length validation failed - expected "@ + decimal(expected as nat)
            + ", got "@ + decimal(actual as nat),
        ValidationError::PatternValidation { field_tag, message } => "Field "@ + field_tag@
            + ": Pattern validation failed - "@ + message@,
        ValidationError::ValueValidation { field_tag, message } => "Field "@ + field_tag@
            + ": Value validation failed - "@ + message@,
        ValidationError::BusinessRuleValidation { rule_name, message } => "Business Rule '"@
            + rule_name@ + "': "@ + message@,
    }
}

/// The texts of the errors of a failed parse: the error, and for a wrong
/// message format its message once more.
pub open spec fn parse_error_texts(e: ParseError) -> Seq<Seq<char>> {
    match e {
        ParseError::InvalidFormat { message } => seq![
            "Parse error: "@ + error_text(e),
            "Invalid message format: "@ + message@,
        ],
        _ => seq!["Parse error: "@ + error_text(e)],
    }
}

/// The concatenation of the given texts.
fn join_texts(parts: Vec<Vec<char>>) -> (r: String)
    ensures
        r@ == concat_all(crate::text::views(parts@)),
{
    let mut out: Vec<char> = Vec::new();
    let mut i: usize = 0;
    while i < parts.len()
        invariant
            i <= parts.len(),
            out@ == concat_all(crate::text::views(parts@).take(i as int)),
        decreases parts.len() - i,
    {
        append_chars(&mut out, &parts[i]);
        proof {
            let v = crate::text::views(parts@);
            assert(v.take(i + 1).drop_last() =~= v.take(i as int));
        }
        i = i + 1;
    }
    assert(crate::text::views(parts@).take(parts.len() as int) =~= crate::text::views(parts@));
    from_chars(&out)
}

/// The texts, one after the other.
pub open spec fn concat_all(parts: Seq<Seq<char>>) -> Seq<char>
    decreases parts.len(),
{
    if parts.len() == 0 {
        Seq::empty()
    } else {
        concat_all(parts.drop_last()) + parts.last()
    }
}

/// Function handler that validates MT messages.
pub struct Validate;

impl Validate {
    /// The text of a validation error.
    pub fn format_validation_error(error: &ValidationError) -> (s: String)
        ensures
            s@ == validation_error_text(*error),
    {
        let parts: Vec<Vec<char>> = match error {
            ValidationError::FormatValidation { field_tag, message } => vec![
                to_chars("Field "),
                string_chars(field_tag),
                to_chars(": Format validation failed - "),
                string_chars(message),
            ],
            ValidationError::LengthValidation { field_tag, expected, actual } => vec![
                to_chars("Field "),
                string_chars(field_tag),
                to_chars(": Length validation failed - expected "),
                usize_to_decimal(*expected),
                to_chars(", got "),
                usize_to_decimal(*actual),
            ],
            ValidationError::PatternValidation { field_tag, message } => vec![
                to_chars("Field "),
                string_chars(field_tag),
                to_chars(": Pattern validation failed - "),
                string_chars(message),
            ],
            ValidationError::ValueValidation { field_tag, message } => vec![
                to_chars("Field "),
                string_chars(field_tag),
                to_chars(": Value validation failed - "),
                string_chars(message),
            ],
            ValidationError::BusinessRuleValidation { rule_name, message } => vec![
                to_chars("Business Rule '"),
                string_chars(rule_name),
                to_chars("': "),
                string_chars(message),
            ],
        };
        proof {
            let v = crate::text::views(parts@);
            reveal_with_fuel(concat_all, 7);
            assert(v.drop_last().drop_last().drop_last().drop_last() =~= v.take(v.len() - 4));
        }
        join_texts(parts)
    }

    /// The texts of the errors of a failed parse.
    pub fn parse_error_texts(e: &ParseError) -> (r: Vec<String>)
        ensures
            r@.map_values(|s: String| s@) == parse_error_texts(*e),
    {
        let first = join_texts(vec![to_chars("Parse error: "), string_chars(&e.to_string())]);
        proof {
            reveal_with_fuel(concat_all, 3);
        }
        let mut r: Vec<String> = vec![first];
        if let ParseError::InvalidFormat { message } = e {
            let second = join_texts(vec![to_chars("Invalid message format: "), string_chars(message)]);
            r.push(second);
        }
        assert(r@.map_values(|s: String| s@) =~= parse_error_texts(*e));
        r
    }

    /// The texts of the errors of a validation result, none where it is valid.
    pub fn result_error_texts(result: &ValidationResult) -> (r: Vec<String>)
        ensures
            result.is_valid ==> r@.len() == 0,
            !result.is_valid ==> r@.map_values(|s: String| s@) == result.errors@.map_values(
                |e: ValidationError| validation_error_text(e),
            ),
    {
        let mut r: Vec<String> = Vec::new();
        if result.is_valid {
            return r;
        }
        let mut i: usize = 0;
        while i < result.errors.len()
            invariant
                i <= result.errors.len(),
                r@.map_values(|s: String| s@) == result.errors@.take(i as int).map_values(
                    |e: ValidationError| validation_error_text(e),
                ),
            decreases result.errors.len() - i,
        {
            let t = Self::format_validation_error(&result.errors[i]);
            let ghost before = r@.map_values(|s: String| s@);
            r.push(t);
            proof {
                assert(r@.map_values(|s: String| s@) =~= before.push(t@));
                assert(result.errors@.take(i + 1).map_values(
                    |e: ValidationError| validation_error_text(e),
                ) =~= result.errors@.take(i as int).map_values(
                    |e: ValidationError| validation_error_text(e),
                ).push(validation_error_text(result.errors@[i as int])));
            }
            i = i + 1;
        }
        assert(result.errors@.take(result.errors.len() as int) =~= result.errors@);
        r
    }
}

} // verus!

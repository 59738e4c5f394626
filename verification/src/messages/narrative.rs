//! Codes that messages carry in their narrative and instruction fields.

use vstd::prelude::*;
use crate::message_parser::RawField;
use crate::text::{
    contains, contains_exec, ends_with, ends_with_exec, find_char, find_from, slice_chars, starts_with,
    starts_with_exec, string_chars, to_chars,
};

verus! {

/// The optional field is present and its content holds `code`.
pub open spec fn mentions(f: Option<RawField>, code: Seq<char>) -> bool {
    f matches Some(x) && contains(x.value@, code)
}

/// The optional field is present and its content holds `code`.
pub fn field_mentions(f: &Option<RawField>, code: &str) -> (b: bool)
    ensures
        b == mentions(*f, code@),
{
    match f {
        Some(x) => contains_exec(&string_chars(&x.value), &to_chars(code)),
        None => false,
    }
}

/// The code of an instruction: its content up to the first `/`.
pub open spec fn instruction_code(v: Seq<char>) -> Seq<char> {
    match find_from(v, seq!['/'], 0) {
        Some(k) => v.take(k),
        None => v,
    }
}

/// The code of an instruction field.
pub fn instruction_code_of(f: &RawField) -> (r: Vec<char>)
    ensures
        r@ == instruction_code(f.value@),
{
    let v = string_chars(&f.value);
    match find_char(&v, '/', 0) {
        Some(k) => slice_chars(&v, 0, k),
        None => v,
    }
}

/// A reference that does not start or end with `/` and holds no `//`.
pub open spec fn plain_reference(v: Seq<char>) -> bool {
    !starts_with(v, seq!['/']) && !ends_with(v, seq!['/']) && !contains(v, seq!['/', '/'])
}

/// The field's content is a plain reference.
pub fn is_plain_reference(f: &RawField) -> (b: bool)
    ensures
        b == plain_reference(f.value@),
{
    let v = string_chars(&f.value);
    let slash: Vec<char> = vec!['/'];
    let double: Vec<char> = vec!['/', '/'];
    assert(slash@ =~= seq!['/']);
    assert(double@ =~= seq!['/', '/']);
    !starts_with_exec(&v, &slash) && !ends_with_exec(&v, &slash) && !contains_exec(&v, &double)
}

/// The field's content starts with `code`.
pub fn field_starts_with(f: &RawField, code: &str) -> (b: bool)
    ensures
        b == starts_with(f.value@, code@),
{
    starts_with_exec(&string_chars(&f.value), &to_chars(code))
}

/// A field whose content holds `code` at position `i` mentions it.
pub proof fn lemma_mentions_at(f: Option<RawField>, code: Seq<char>, i: int)
    requires
        f matches Some(x) && 0 <= i && i + code.len() <= x.value@.len() && x.value@.subrange(i, i + code.len()) == code,
    ensures
        mentions(f, code),
{
    let v = f->0.value@;
    crate::text::lemma_find_from(v, code, 0);
    if find_from(v, code, 0) is None {
        assert(crate::text::occurs_at(v, code, i));
    }
}

/// A field that is absent, or whose content holds `code` nowhere, does not
/// mention it.
pub proof fn lemma_mentions_nowhere(f: Option<RawField>, code: Seq<char>)
    requires
        f matches Some(x) ==> forall|i: int|
            0 <= i && i + code.len() <= x.value@.len() ==> #[trigger] x.value@.subrange(i, i + code.len()) != code,
    ensures
        !mentions(f, code),
{
    if f is Some {
        let v = f->0.value@;
        crate::text::lemma_find_from(v, code, 0);
        if find_from(v, code, 0) is Some {
            let k = find_from(v, code, 0)->0;
            assert(crate::text::occurs_at(v, code, k));
        }
    }
}

/// A reference that starts with `/`, ends with `/`, or holds `//` is not a
/// plain reference.
pub proof fn lemma_slashed_reference(v: Seq<char>, i: int)
    requires
        v.len() > 0,
        v[0] == '/' || v[v.len() - 1] == '/' || (0 <= i && i + 1 < v.len() && v[i] == '/' && v[i + 1] == '/'),
    ensures
        !plain_reference(v),
{
    if v[0] == '/' {
        assert(v.subrange(0, 1) =~= seq!['/']);
    } else if v[v.len() - 1] == '/' {
        assert(v.subrange(v.len() - 1, v.len() as int) =~= seq!['/']);
    } else {
        crate::text::lemma_find_from(v, seq!['/', '/'], 0);
        assert(v.subrange(i, i + 2) =~= seq!['/', '/']);
        if find_from(v, seq!['/', '/'], 0) is None {
            assert(crate::text::occurs_at(v, seq!['/', '/'], i));
        }
    }
}

/// A reference with no `/` at either end and no `//` in it is a plain
/// reference.
pub proof fn lemma_plain_reference(v: Seq<char>)
    requires
        v.len() > 0 ==> v[0] != '/' && v[v.len() - 1] != '/',
        forall|i: int| 0 <= i && i + 1 < v.len() ==> !(v[i] == '/' && #[trigger] v[i + 1] == '/'),
    ensures
        plain_reference(v),
{
    if v.len() > 0 {
        assert(v.subrange(0, 1)[0] == v[0]);
        assert(v.subrange(v.len() - 1, v.len() as int)[0] == v[v.len() - 1]);
    }
    crate::text::lemma_find_from(v, seq!['/', '/'], 0);
    if find_from(v, seq!['/', '/'], 0) is Some {
        let k = find_from(v, seq!['/', '/'], 0)->0;
        assert(crate::text::occurs_at(v, seq!['/', '/'], k));
        assert(v.subrange(k, k + 2)[0] == v[k]);
        assert(v.subrange(k, k + 2)[1] == v[k + 1]);
    }
}

} // verus!

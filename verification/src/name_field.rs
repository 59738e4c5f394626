//! # Generic Name Address Field
//!
//! A generic field structure for SWIFT name and address fields that follow the
//! `4*35x` pattern (up to 4 lines of 35 characters each), as used by fields
//! 52D, 53D, 54D and 55D.

use vstd::prelude::*;
use crate::errors::{ParseError, ValidationResult};
use crate::numeric::{decimal, usize_to_decimal};
use crate::text::{
    alphabetic, is_alphabetic, is_numeric, numeric,
    append_chars, from_chars, is_ascii_alpha, is_ascii_digit, join, join_chars, lines, lines_exec,
    starts_with, starts_with_exec, string_chars, string_views, to_chars, trim, trim_chars, views,
};
use crate::text::{is_ws, split_on, strip_cr, trim_end, trim_start};
use crate::traits::SwiftField;

verus! {

/// The number of bytes that UTF-8 takes for `c`.
pub open spec fn utf8_width(c: char) -> nat {
    if (c as u32) < 0x80 {
        1
    } else if (c as u32) < 0x800 {
        2
    } else if (c as u32) < 0x10000 {
        3
    } else {
        4
    }
}

/// The length of `s` in UTF-8 bytes (`str::len`).
pub open spec fn utf8_len(s: Seq<char>) -> nat
    decreases s.len(),
{
    if s.len() == 0 {
        0
    } else {
        utf8_len(s.drop_last()) + utf8_width(s.last())
    }
}

/// A printable ASCII character: ASCII and not a control character.
pub open spec fn printable_ascii(c: char) -> bool {
    ' ' <= c && c <= '~'
}

/// What is wrong with line number `n` (counting from 1), if anything.
pub open spec fn line_problem(line: Seq<char>, n: nat) -> Option<Seq<char>> {
    if trim(line).len() == 0 {
        Some("Line "@ + decimal(n) + " cannot be empty or whitespace-only"@)
    } else if utf8_len(line) > 35 {
        Some("Line "@ + decimal(n) + " too long (max 35 characters)"@)
    } else if !(forall|i: int| 0 <= i < line.len() ==> printable_ascii(#[trigger] line[i])) {
        Some("Line "@ + decimal(n) + " contains invalid characters"@)
    } else {
        None
    }
}

/// The problem of the first bad line from index `i` on, if any.
pub open spec fn first_problem(ls: Seq<Seq<char>>, i: int) -> Option<Seq<char>>
    decreases ls.len() - i,
{
    if i < 0 || i >= ls.len() {
        None
    } else {
        match line_problem(ls[i], (i + 1) as nat) {
            Some(p) => Some(p),
            None => first_problem(ls, i + 1),
        }
    }
}

/// What `new` makes of the lines: the trimmed lines, or the message of the
/// first problem.
pub open spec fn name_address_outcome(ls: Seq<Seq<char>>) -> Result<Seq<Seq<char>>, Seq<char>> {
    if ls.len() == 0 {
        Err("Name and address cannot be empty"@)
    } else if ls.len() > 4 {
        Err("Too many name/address lines (max 4)"@)
    } else {
        match first_problem(ls, 0) {
            Some(p) => Err(p),
            None => Ok(ls.map_values(|l: Seq<char>| trim(l))),
        }
    }
}

/// A line that a name and address accepts: something besides white space,
/// at most 35 bytes, printable ASCII only.
pub open spec fn line_acceptable(line: Seq<char>) -> bool {
    &&& trim(line).len() > 0
    &&& utf8_len(line) <= 35
    &&& forall|i: int| 0 <= i < line.len() ==> printable_ascii(#[trigger] line[i])
}

/// No line from `i` on has a problem exactly when each is acceptable.
proof fn lemma_no_problem_from(ls: Seq<Seq<char>>, i: int)
    requires
        0 <= i <= ls.len(),
    ensures
        first_problem(ls, i) is None <==> forall|j: int| i <= j < ls.len() ==> line_acceptable(#[trigger] ls[j]),
    decreases ls.len() - i,
{
    if i < ls.len() {
        lemma_no_problem_from(ls, i + 1);
    }
}

/// A name and address is accepted exactly when it has one to four lines,
/// each with something besides white space, at most 35 bytes long, and of
/// printable ASCII characters only; what is kept is then each line trimmed.
pub proof fn lemma_name_address_accepted(ls: Seq<Seq<char>>)
    ensures
        name_address_outcome(ls) is Ok <==> (1 <= ls.len() <= 4 && forall|i: int|
            0 <= i < ls.len() ==> line_acceptable(#[trigger] ls[i])),
        name_address_outcome(ls) matches Ok(kept) ==> kept == ls.map_values(|l: Seq<char>| trim(l)),
{
    if 1 <= ls.len() <= 4 {
        lemma_no_problem_from(ls, 0);
    }
}

/// The UTF-8 length of a prefix grows with the prefix.
proof fn lemma_utf8_len_prefix(s: Seq<char>, i: int)
    requires
        0 <= i <= s.len(),
    ensures
        utf8_len(s.take(i)) <= utf8_len(s),
    decreases s.len() - i,
{
    if i < s.len() {
        lemma_utf8_len_prefix(s, i + 1);
        assert(s.take(i + 1).drop_last() =~= s.take(i));
    } else {
        assert(s.take(i) =~= s);
    }
}

/// The line is longer than `max` UTF-8 bytes.
fn utf8_longer_than(line: &Vec<char>, max: usize) -> (b: bool)
    requires
        max < 1000,
    ensures
        b == (utf8_len(line@) > max),
{
    let mut total: usize = 0;
    let mut i: usize = 0;
    assert(line@.take(0) =~= Seq::<char>::empty());
    while i < line.len()
        invariant
            i <= line.len(),
            max < 1000,
            total == utf8_len(line@.take(i as int)),
            total <= max,
        decreases line.len() - i,
    {
        let c = line[i];
        let w: usize = if (c as u32) < 0x80 {
            1
        } else if (c as u32) < 0x800 {
            2
        } else if (c as u32) < 0x10000 {
            3
        } else {
            4
        };
        assert(line@.take(i + 1).drop_last() =~= line@.take(i as int));
        assert(line@.take(i + 1).last() == c);
        total = total + w;
        i = i + 1;
        if total > max {
            proof {
                lemma_utf8_len_prefix(line@, i as int);
            }
            return true;
        }
    }
    assert(line@.take(line.len() as int) =~= line@);
    false
}

/// Every character of the line is printable ASCII.
fn all_printable(line: &Vec<char>) -> (b: bool)
    ensures
        b == forall|i: int| 0 <= i < line@.len() ==> printable_ascii(#[trigger] line@[i]),
{
    let mut i: usize = 0;
    while i < line.len()
        invariant
            i <= line.len(),
            forall|j: int| 0 <= j < i ==> printable_ascii(#[trigger] line@[j]),
        decreases line.len() - i,
    {
        if !(' ' <= line[i] && line[i] <= '~') {
            return false;
        }
        i = i + 1;
    }
    true
}

/// "Line n" followed by `tail`.
fn line_message(n: usize, tail: &str) -> (m: String)
    ensures
        m@ == "Line "@ + decimal(n as nat) + tail@,
{
    let mut v = to_chars("Line ");
    append_chars(&mut v, &usize_to_decimal(n));
    append_chars(&mut v, &to_chars(tail));
    from_chars(&v)
}

/// The error of a name and address field.
fn field_error(message: String) -> (e: ParseError)
    ensures
        e matches ParseError::InvalidFieldFormat { field_tag, message: m } && field_tag@
            == "GenericNameAddressField"@ && m@ == message@,
{
    ParseError::InvalidFieldFormat { field_tag: "GenericNameAddressField".to_string(), message }
}



/// # Generic Name Address Field
///
/// Up to 4 lines of at most 35 printable ASCII characters each; the first
/// line is the name, the others the address.
#[derive(Debug, Clone, PartialEq, Eq)]
pub struct GenericNameAddressField {
    /// Name and address lines (up to 4 lines, 35 characters each)
    pub name_and_address: Vec<String>,
}

impl GenericNameAddressField {
    /// The lines, as the specifications see them.
    pub open spec fn lines_view(&self) -> Seq<Seq<char>> {
        string_views(self.name_and_address@)
    }

    /// Create a new GenericNameAddressField with validation: 1 to 4 lines,
    /// none blank, none over 35 bytes, all printable ASCII; the lines are
    /// kept trimmed.
    pub fn new(name_and_address: Vec<String>) -> (r: Result<GenericNameAddressField, ParseError>)
        ensures
            match name_address_outcome(string_views(name_and_address@)) {
                Ok(ls) => r matches Ok(f) && f.lines_view() == ls,
                Err(m) => r matches Err(ParseError::InvalidFieldFormat { field_tag, message })
                    && field_tag@ == "GenericNameAddressField"@ && message@ == m,
            },
    {
        let ghost ls = string_views(name_and_address@);
        if name_and_address.len() == 0 {
            return Err(field_error("Name and address cannot be empty".to_string()));
        }
        if name_and_address.len() > 4 {
            return Err(field_error("Too many name/address lines (max 4)".to_string()));
        }
        let mut trimmed: Vec<String> = Vec::new();
        let mut i: usize = 0;
        while i < name_and_address.len()
            invariant
                i <= name_and_address.len() <= 4,
                ls == string_views(name_and_address@),
                first_problem(ls, 0) == first_problem(ls, i as int),
                string_views(trimmed@) == ls.take(i as int).map_values(|l: Seq<char>| trim(l)),
            decreases name_and_address.len() - i,
        {
            let line = string_chars(&name_and_address[i]);
            assert(line@ == ls[i as int]);
            if trim_chars(&line).len() == 0 {
                return Err(field_error(line_message(i + 1, " cannot be empty or whitespace-only")));
            }
            if utf8_longer_than(&line, 35) {
                return Err(field_error(line_message(i + 1, " too long (max 35 characters)")));
            }
            if !all_printable(&line) {
                return Err(field_error(line_message(i + 1, " contains invalid characters")));
            }
            let ghost before = trimmed@;
            let t = from_chars(&trim_chars(&line));
            assert(t@ == trim(ls[i as int]));
            trimmed.push(t);
            proof {
                assert(string_views(trimmed@) =~= string_views(before).push(t@));
                assert(ls.take(i + 1).map_values(|l: Seq<char>| trim(l)) =~= ls.take(
                    i as int,
                ).map_values(|l: Seq<char>| trim(l)).push(trim(ls[i as int])));
            }
            i = i + 1;
        }
        assert(first_problem(ls, i as int) is None);
        assert(ls.take(i as int) =~= ls);
        Ok(GenericNameAddressField { name_and_address: trimmed })
    }

    /// Create from a single string, splitting on newlines
    pub fn from_string(content: &str) -> (r: Result<GenericNameAddressField, ParseError>)
        ensures
            match name_address_outcome(lines(content@)) {
                Ok(ls) => r matches Ok(f) && f.lines_view() == ls,
                Err(m) => r matches Err(ParseError::InvalidFieldFormat { field_tag, message })
                    && field_tag@ == "GenericNameAddressField"@ && message@ == m,
            },
    {
        let parts = lines_exec(&to_chars(content));
        Self::new(strings_of(&parts))
    }

    /// Get the name and address lines
    pub fn name_and_address(&self) -> (r: &[String])
        ensures
            r@ == self.name_and_address@,
    {
        self.name_and_address.as_slice()
    }

    /// Get the number of lines
    pub fn line_count(&self) -> (n: usize)
        ensures
            n == self.name_and_address@.len(),
    {
        self.name_and_address.len()
    }

    /// Get a specific line by index (0-based)
    pub fn line(&self, index: usize) -> (r: Option<&str>)
        ensures
            index < self.name_and_address@.len() ==> (r matches Some(s) && s@
                == self.name_and_address@[index as int]@),
            index >= self.name_and_address@.len() ==> r is None,
    {
        if index < self.name_and_address.len() {
            Some(self.name_and_address[index].as_str())
        } else {
            None
        }
    }

    /// Get the first line (typically the institution name)
    pub fn name(&self) -> (r: Option<&str>)
        ensures
            self.name_and_address@.len() > 0 ==> (r matches Some(s) && s@
                == self.name_and_address@[0]@),
            self.name_and_address@.len() == 0 ==> r is None,
    {
        self.line(0)
    }

    /// Get address lines (all lines except the first)
    pub fn address_lines(&self) -> (r: &[String])
        ensures
            self.name_and_address@.len() > 1 ==> r@ == self.name_and_address@.subrange(
                1,
                self.name_and_address@.len() as int,
            ),
            self.name_and_address@.len() <= 1 ==> r@.len() == 0,
    {
        if self.name_and_address.len() > 1 {
            self.name_and_address.as_slice().split_at(1).1
        } else {
            self.name_and_address.as_slice().split_at(0).0
        }
    }

    /// What `parse_with_tag` reads: the content trimmed, without a leading
    /// `:TAG:` or `TAG:`.
    pub open spec fn stripped(content: Seq<char>, tag: Seq<char>) -> Seq<char> {
        let c = trim(content);
        let long = seq![':'] + tag + seq![':'];
        let short = tag + seq![':'];
        if starts_with(c, long) {
            c.subrange(long.len() as int, c.len() as int)
        } else if starts_with(c, short) {
            c.subrange(short.len() as int, c.len() as int)
        } else {
            c
        }
    }

    /// Parse content with custom field tag for error messages
    pub fn parse_with_tag(content: &str, field_tag: &str) -> (r: Result<GenericNameAddressField, ParseError>)
        ensures
            trim(content@).len() == 0 ==> (r matches Err(ParseError::InvalidFieldFormat { field_tag: t, message })
                && t@ == field_tag@ && message@ == "Field content cannot be empty"@),
            trim(content@).len() > 0 ==> match name_address_outcome(lines(Self::stripped(content@, field_tag@))) {
                Ok(ls) => r matches Ok(f) && f.lines_view() == ls,
                Err(m) => r matches Err(ParseError::InvalidFieldFormat { field_tag: t, message })
                    && t@ == field_tag@ && message@ == m,
            },
    {
        let c = trim_chars(&to_chars(content));
        if c.len() == 0 {
            return Err(
                ParseError::InvalidFieldFormat {
                    field_tag: field_tag.to_string(),
                    message: "Field content cannot be empty".to_string(),
                },
            );
        }
        let tag = to_chars(field_tag);
        let mut long: Vec<char> = vec![':'];
        append_chars(&mut long, &tag);
        long.push(':');
        let mut short: Vec<char> = tag.clone();
        short.push(':');
        assert(long@ =~= seq![':'] + field_tag@ + seq![':']);
        assert(short@ =~= field_tag@ + seq![':']);
        let body = if starts_with_exec(&c, &long) {
            crate::text::slice_chars(&c, long.len(), c.len())
        } else if starts_with_exec(&c, &short) {
            crate::text::slice_chars(&c, short.len(), c.len())
        } else {
            c
        };
        let parts = lines_exec(&body);
        match Self::new(strings_of(&parts)) {
            Ok(f) => Ok(f),
            Err(ParseError::InvalidFieldFormat { field_tag: _, message }) => Err(
                ParseError::InvalidFieldFormat { field_tag: field_tag.to_string(), message },
            ),
            Err(e) => Err(e),
        }
    }

    /// The lines joined with `sep`.
    fn joined(&self, sep: &str) -> (s: String)
        ensures
            s@ == join(self.lines_view(), sep@),
    {
        let mut ls: Vec<Vec<char>> = Vec::new();
        let mut i: usize = 0;
        while i < self.name_and_address.len()
            invariant
                i <= self.name_and_address.len(),
                views(ls@) == self.lines_view().take(i as int),
            decreases self.name_and_address.len() - i,
        {
            let ghost before = ls@;
            ls.push(string_chars(&self.name_and_address[i]));
            assert(views(ls@) =~= views(before).push(self.lines_view()[i as int]));
            assert(self.lines_view().take(i + 1) =~= self.lines_view().take(i as int).push(
                self.lines_view()[i as int],
            ));
            i = i + 1;
        }
        assert(self.lines_view().take(self.name_and_address.len() as int) =~= self.lines_view());
        from_chars(&join_chars(&ls, &to_chars(sep)))
    }

    /// Convert to SWIFT string format with custom field tag
    pub fn to_swift_string_with_tag(&self, field_tag: &str) -> (s: String)
        ensures
            s@ == seq![':'] + field_tag@ + seq![':'] + join(self.lines_view(), seq!['\n']),
    {
        let mut v: Vec<char> = vec![':'];
        append_chars(&mut v, &to_chars(field_tag));
        v.push(':');
        let body = self.joined("\n");
        proof {
            reveal_strlit("\n");
            assert("\n"@ =~= seq!['\n']);
        }
        append_chars(&mut v, &string_chars(&body));
        assert(v@ =~= seq![':'] + field_tag@ + seq![':'] + join(self.lines_view(), seq!['\n']));
        from_chars(&v)
    }

    /// Get human-readable description with custom context:
    /// `context (name, n line[s])`, the name `Unknown` when there is none.
    pub fn description(&self, context: &str) -> (s: String)
        ensures
            s@ == context@ + " ("@ + (if self.name_and_address@.len() > 0 {
                self.name_and_address@[0]@
            } else {
                "Unknown"@
            }) + ", "@ + decimal(self.name_and_address@.len() as nat) + " line"@ + (
            if self.name_and_address@.len() == 1 {
                ""@
            } else {
                "s"@
            }) + ")"@,
    {
        let name = match self.name() {
            Some(n) => n,
            None => "Unknown",
        };
        let n = self.line_count();
        let mut v = to_chars(context);
        append_chars(&mut v, &to_chars(" ("));
        append_chars(&mut v, &to_chars(name));
        append_chars(&mut v, &to_chars(", "));
        append_chars(&mut v, &usize_to_decimal(n));
        append_chars(&mut v, &to_chars(" line"));
        let plural = if n == 1 {
            ""
        } else {
            "s"
        };
        append_chars(&mut v, &to_chars(plural));
        append_chars(&mut v, &to_chars(")"));
        from_chars(&v)
    }

    /// The name is at least three bytes long, has an alphabetic character,
    /// and is not all numeric.
    pub open spec fn institution_name(&self) -> bool {
        self.name_and_address@.len() > 0 && {
            let n = self.name_and_address@[0]@;
            &&& utf8_len(n) >= 3
            &&& exists|i: int| 0 <= i < n.len() && alphabetic(#[trigger] n[i])
            &&& !(forall|i: int| 0 <= i < n.len() ==> numeric(#[trigger] n[i]))
        }
    }

    /// Check if this appears to be a valid institution name
    pub fn is_valid_institution_name(&self) -> (b: bool)
        ensures
            b == self.institution_name(),
    {
        if self.name_and_address.len() == 0 {
            return false;
        }
        let n = string_chars(&self.name_and_address[0]);
        if !utf8_longer_than(&n, 2) {
            return false;
        }
        let mut any_alpha = false;
        let mut all_numeric = true;
        let mut i: usize = 0;
        while i < n.len()
            invariant
                i <= n.len(),
                any_alpha == exists|j: int| 0 <= j < i && alphabetic(#[trigger] n@[j]),
                all_numeric == forall|j: int| 0 <= j < i ==> numeric(#[trigger] n@[j]),
            decreases n.len() - i,
        {
            if is_alphabetic(n[i]) {
                any_alpha = true;
            }
            if !is_numeric(n[i]) {
                all_numeric = false;
            }
            i = i + 1;
        }
        any_alpha && !all_numeric
    }

    /// Get a single-line representation
    pub fn to_single_line(&self) -> (s: String)
        ensures
            s@ == join(self.lines_view(), ", "@),
    {
        self.joined(", ")
    }

    /// The lines joined with ` / `.
    pub fn to_string(&self) -> (s: String)
        ensures
            s@ == join(self.lines_view(), " / "@),
    {
        self.joined(" / ")
    }
}

/// Strings holding the given character sequences.
fn strings_of(parts: &Vec<Vec<char>>) -> (r: Vec<String>)
    ensures
        string_views(r@) == views(parts@),
{
    let mut r: Vec<String> = Vec::new();
    let mut i: usize = 0;
    while i < parts.len()
        invariant
            i <= parts.len(),
            string_views(r@) == views(parts@).take(i as int),
        decreases parts.len() - i,
    {
        let ghost before = r@;
        r.push(from_chars(&parts[i]));
        assert(string_views(r@) =~= string_views(before).push(parts@[i as int]@));
        assert(views(parts@).take(i + 1) =~= views(parts@).take(i as int).push(parts@[i as int]@));
        i = i + 1;
    }
    assert(views(parts@).take(parts.len() as int) =~= views(parts@));
    r
}

impl SwiftField for GenericNameAddressField {
    open spec fn parse_outcome(content: Seq<char>, r: Result<Self, ParseError>) -> bool {
        &&& trim(content).len() == 0 ==> (r matches Err(ParseError::InvalidFieldFormat { field_tag, message })
            && field_tag@ == "GenericNameAddressField"@ && message@ == "Field content cannot be empty"@)
        &&& trim(content).len() > 0 ==> match name_address_outcome(lines(Self::stripped(content, "GenericNameAddressField"@))) {
            Ok(ls) => r matches Ok(f) && f.lines_view() == ls,
            Err(m) => r matches Err(ParseError::InvalidFieldFormat { field_tag, message })
                && field_tag@ == "GenericNameAddressField"@ && message@ == m,
        }
    }

    open spec fn swift_form(&self) -> Seq<char> {
        seq![':'] + "GenericNameAddressField"@ + seq![':'] + join(self.lines_view(), seq!['\n'])
    }

    open spec fn format_text() -> Seq<char> {
        "4*35x"@
    }

    open spec fn variant(&self) -> Option<Seq<char>> {
        None
    }

    fn parse(content: &str) -> (r: Result<Self, ParseError>) {
        Self::parse_with_tag(content, "GenericNameAddressField")
    }

    fn to_swift_string(&self) -> (s: String) {
        self.to_swift_string_with_tag("GenericNameAddressField")
    }

    fn validate(&self) -> (r: ValidationResult) {
        ValidationResult { is_valid: true, errors: Vec::new(), warnings: Vec::new() }
    }

    fn format_spec() -> (s: &'static str) {
        "4*35x"
    }

    fn get_variant_tag(&self) -> (r: Option<&'static str>) {
        None
    }
}


/// Splitting a text followed by a piece without the separator: the piece
/// ends the last part.
proof fn lemma_split_append(a: Seq<char>, t: Seq<char>, sep: char)
    requires
        forall|i: int| 0 <= i < t.len() ==> t[i] != sep,
    ensures
        split_on(a + t, sep) == split_on(a, sep).update(
            split_on(a, sep).len() - 1,
            split_on(a, sep).last() + t,
        ),
    decreases t.len(),
{
    crate::text::lemma_split_on_len(a, sep);
    let pa = split_on(a, sep);
    if t.len() == 0 {
        assert(a + t =~= a);
        assert(pa.last() + t =~= pa.last());
        assert(pa.update(pa.len() - 1, pa.last()) =~= pa);
    } else {
        let t0 = t.drop_last();
        lemma_split_append(a, t0, sep);
        assert((a + t).drop_last() =~= a + t0);
        assert((a + t).last() == t.last());
        let prev = split_on(a + t0, sep);
        assert(prev.last() == pa.last() + t0);
        assert(prev.last().push(t.last()) =~= pa.last() + t);
        assert(prev.update(prev.len() - 1, prev.last().push(t.last())) =~= pa.update(
            pa.len() - 1,
            pa.last() + t,
        ));
    }
}

/// Lines without line feeds, joined by line feeds, split back into themselves.
pub(crate) proof fn lemma_split_join(ls: Seq<Seq<char>>)
    requires
        ls.len() >= 1,
        forall|k: int, i: int| 0 <= k < ls.len() && 0 <= i < ls[k].len() ==> #[trigger] ls[k][i] != '\n',
    ensures
        split_on(join(ls, seq!['\n']), '\n') == ls,
    decreases ls.len(),
{
    let e = Seq::<char>::empty();
    if ls.len() == 1 {
        assert(split_on(e, '\n') == seq![e]);
        lemma_split_append(e, ls[0], '\n');
        assert(e + ls[0] =~= ls[0]);
        assert(e + ls[0] =~= ls[0]);
        assert(seq![e].update(0, e + ls[0]) =~= ls);
    } else {
        let p = ls.drop_last();
        lemma_split_join(p);
        let j0 = join(p, seq!['\n']);
        let j1 = j0 + seq!['\n'];
        assert(j1.drop_last() =~= j0);
        assert(split_on(j1, '\n') == p.push(e));
        lemma_split_append(j1, ls.last(), '\n');
        assert(join(ls, seq!['\n']) == j1 + ls.last());
        assert(e + ls.last() =~= ls.last());
        assert(p.push(e).update(p.len() as int, e + ls.last()) =~= ls);
    }
}

/// The lines that `first_problem` passes from `i` on have no problem.
proof fn lemma_no_problem(ls: Seq<Seq<char>>, i: int, k: int)
    requires
        0 <= i <= k < ls.len(),
        first_problem(ls, i) is None,
    ensures
        line_problem(ls[k], (k + 1) as nat) is None,
    decreases k - i,
{
    if i < k {
        lemma_no_problem(ls, i + 1, k);
    }
}

impl GenericNameAddressField {
    /// Reading back what was written: valid lines written with a field tag,
    /// as `to_swift_string_with_tag` writes them, are read back by
    /// `parse_with_tag` with that tag as the same lines.
    pub proof fn lemma_round_trip(ls: Seq<Seq<char>>, tag: Seq<char>)
        requires
            name_address_outcome(ls) == Ok::<Seq<Seq<char>>, Seq<char>>(ls),
        ensures
            ({
                let content = seq![':'] + tag + seq![':'] + join(ls, seq!['\n']);
                &&& trim(content).len() > 0
                &&& name_address_outcome(lines(Self::stripped(content, tag))) == Ok::<
                    Seq<Seq<char>>,
                    Seq<char>,
                >(ls)
            }),
    {
        let nl = seq!['\n'];
        let body = join(ls, nl);
        let long = seq![':'] + tag + seq![':'];
        let content = long + body;
        assert(seq![':'] + tag + seq![':'] + body =~= content);
        assert forall|k: int| 0 <= k < ls.len() implies trim(#[trigger] ls[k]) == ls[k] && ls[k].len() > 0
            && (forall|i: int| 0 <= i < ls[k].len() ==> crate::name_field::printable_ascii(ls[k][i])) by {
            assert(ls.map_values(|l: Seq<char>| trim(l))[k] == ls[k]);
            lemma_no_problem(ls, 0, k);
        }
        assert forall|k: int, i: int| 0 <= k < ls.len() && 0 <= i < ls[k].len() implies #[trigger] ls[k][i] != '\n' by {
            assert(printable_ascii(ls[k][i]));
        }
        lemma_split_join(ls);
        // The body ends with the last line, whose last character is no space.
        let last = ls.last();
        assert(trim(last) == last && last.len() > 0);
        crate::round_trip::lemma_trimmed_ends(last);
        assert(body.len() > 0 && body.last() == last.last()) by {
            if ls.len() > 1 {
                assert(body == join(ls.drop_last(), nl) + nl + last);
            }
        }
        assert(content.last() == body.last());
        assert(!is_ws(content[0]));
        assert(trim_start(content) == content);
        assert(trim_end(content) == content);
        assert(trim(content) == content);
        assert(crate::text::starts_with(content, long)) by {
            assert(content.subrange(0, long.len() as int) =~= long);
        }
        assert(Self::stripped(content, tag) =~= body);
        let p = split_on(body, '\n');
        assert(p == ls);
        assert(p.drop_last().map_values(|x: Seq<char>| strip_cr(x)) =~= ls.drop_last()) by {
            assert forall|k: int| 0 <= k < ls.len() - 1 implies strip_cr(#[trigger] ls[k]) == ls[k] by {
                assert(printable_ascii(ls[k].last()));
            }
        }
        assert(lines(body) =~= ls);
    }
}

} // verus!

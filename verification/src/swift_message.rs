//! A whole SWIFT message: its headers and its typed body.

use vstd::prelude::*;
use crate::block4::base_tag;
use crate::errors::{ValidationError, ValidationResult};
use crate::headers::{clip, clip_chars, ApplicationHeader, BasicHeader, Trailer, UserHeader};
use crate::message_parser::FieldView;
use crate::text::{
    append_chars, contains, contains_exec, from_chars, starts_with, starts_with_exec, string_chars,
    to_chars, trim, trim_chars,
};
use crate::traits::SwiftMessageBody;
use crate::json_text::{fields_object, fields_object_text, json_str, push_json_str};
use crate::validation::{
    outcomes_fit, read_rules, rule_outcomes, rules_of, RuleOutcome, rules_text, tallied, tally_rules,
    unread_result, unread_result_is, unsupported_result_is, unsupported_type_result,
    validation_rules_for,
};

verus! {

/// What `str::to_uppercase` gives for a string.
pub uninterp spec fn uppercase(s: Seq<char>) -> Seq<char>;

/// An ASCII character in upper case: a lower-case letter becomes its
/// capital, any other character stays.
pub open spec fn ascii_upper(c: char) -> char {
    if crate::text::is_ascii_lower(c) {
        ((c as u32) - 32) as char
    } else {
        c
    }
}

/// Every character of the text is ASCII.
pub open spec fn all_ascii(s: Seq<char>) -> bool {
    forall|i: int| 0 <= i < s.len() ==> (#[trigger] s[i] as u32) < 0x80
}

/// The string in upper case (`str::to_uppercase`): its result is named
/// `uppercase`; on ASCII text, as std documents, each lower-case letter
/// becomes its capital and every other character stays.
#[verifier::external_body]
pub(crate) fn to_uppercase(s: &str) -> (r: String)
    ensures
        r@ == uppercase(s@),
        all_ascii(s@) ==> r@ == s@.map_values(|c: char| ascii_upper(c)),
{
    s.to_uppercase()
}

/// The message user reference of the user header, in upper case, holds `code`.
pub open spec fn mur_holds<T: SwiftMessageBody>(m: SwiftMessage<T>, code: Seq<char>) -> bool {
    m.user_header matches Some(h) && h.message_user_reference matches Some(r) && contains(
        uppercase(r@),
        code,
    )
}

/// Complete SWIFT message with headers and body
#[derive(Debug, Clone)]
pub struct SwiftMessage<T: SwiftMessageBody> {
    /// Basic Header (Block 1)
    pub basic_header: BasicHeader,
    /// Application Header (Block 2)
    pub application_header: ApplicationHeader,
    /// User Header (Block 3) - Optional
    pub user_header: Option<UserHeader>,
    /// Trailer (Block 5) - Optional
    pub trailer: Option<Trailer>,
    /// Message type identifier
    pub message_type: String,
    /// Parsed message body with typed fields
    pub fields: T,
}

/// One line of block 4 as a whole message writes it: nothing for an
/// optional field whose content is blank; the content on its own line when
/// it already starts with `:`; otherwise `:TAG:content` under the tag
/// without its `#` index.
pub open spec fn block4_line(f: FieldView, optional: Seq<Seq<char>>) -> Seq<char> {
    if optional.contains(f.0) && trim(f.1).len() == 0 {
        Seq::empty()
    } else if starts_with(f.1, seq![':']) {
        seq!['\n'] + f.1
    } else {
        seq!['\n', ':'] + base_tag(f.0) + seq![':'] + f.1
    }
}

/// The lines of block 4 for the given fields.
pub open spec fn block4_lines(fields: Seq<FieldView>, optional: Seq<Seq<char>>) -> Seq<char>
    decreases fields.len(),
{
    if fields.len() == 0 {
        Seq::empty()
    } else {
        block4_lines(fields.drop_last(), optional) + block4_line(fields.last(), optional)
    }
}

/// A block `{n:content}` followed by a newline.
pub open spec fn block_text(n: char, content: Seq<char>) -> Seq<char> {
    seq!['{', n, ':'] + content + seq!['}', '\n']
}

/// The two-letter country code at positions 4 and 5 of a BIC, `XX` when the
/// BIC is shorter than six characters.
pub open spec fn country_of(bic: Seq<char>) -> Seq<char> {
    if bic.len() >= 6 {
        bic.subrange(4, 6)
    } else {
        seq!['X', 'X']
    }
}

impl<T: SwiftMessageBody> SwiftMessage<T> {
    /// Check if this message contains reject codes: the message user
    /// reference holds `REJT`, or the body carries reject codes (for MT103:
    /// field 20 starting with `REJT`, or `/REJT/` in field 72; for MT202 and
    /// MT205: a reject code in field 72).
    pub fn has_reject_codes(&self) -> (b: bool)
        ensures
            b == (mur_holds(*self, "REJT"@) || self.fields.rejected()),
    {
        if self.mur_contains("REJT") {
            return true;
        }
        self.fields.has_reject_codes()
    }

    /// Check if this message contains return codes: the message user
    /// reference holds `RETN`, or the body carries return codes (for MT103:
    /// field 20 starting with `RETN`, or `/RETN/` in field 72; for MT202 and
    /// MT205: a return code in field 72).
    pub fn has_return_codes(&self) -> (b: bool)
        ensures
            b == (mur_holds(*self, "RETN"@) || self.fields.returned()),
    {
        if self.mur_contains("RETN") {
            return true;
        }
        self.fields.has_return_codes()
    }

    /// The message user reference, in upper case, holds `code`.
    fn mur_contains(&self, code: &str) -> (b: bool)
        ensures
            b == mur_holds(*self, code@),
    {
        match &self.user_header {
            Some(h) => match &h.message_user_reference {
                Some(r) => {
                    let up = to_uppercase(r.as_str());
                    contains_exec(&string_chars(&up), &to_chars(code))
                },
                None => false,
            },
            None => false,
        }
    }

    /// Check if this is a cover message
    pub fn is_cover_message(&self) -> (b: bool)
        ensures
            b == self.fields.cover(),
    {
        self.fields.is_cover_message()
    }

    /// Check if this is an STP message
    pub fn is_stp_message(&self) -> (b: bool)
        ensures
            b == self.fields.stp(),
    {
        self.fields.is_stp_message()
    }

    /// The countries of the sender (logical terminal) and of the receiver
    /// (destination address).
    pub fn extract_country_codes_from_bics(&self) -> (r: (String, String))
        ensures
            r.0@ == country_of(self.basic_header.logical_terminal@),
            r.1@ == country_of(self.application_header.destination_address@),
    {
        let s = string_chars(&self.basic_header.logical_terminal);
        let d = string_chars(&self.application_header.destination_address);
        let sender = if s.len() >= 6 {
            from_chars(&clip_chars(&s, 4, 6))
        } else {
            "XX".to_string()
        };
        let receiver = if d.len() >= 6 {
            from_chars(&clip_chars(&d, 4, 6))
        } else {
            "XX".to_string()
        };
        proof {
            reveal_strlit("XX");
        }
        (sender, receiver)
    }

    /// The whole message in SWIFT form.
    pub open spec fn mt_message_text(&self) -> Seq<char> {
        block_text('1', self.basic_header.to_block_view()) + block_text(
            '2',
            self.application_header.to_block_view(),
        ) + (if self.user_header is Some {
            block_text('3', self.user_header->0.raw@)
        } else {
            Seq::empty()
        }) + seq!['{', '4', ':'] + block4_lines(self.fields.ordered(), T::optional_tags()) + seq![
            '\n',
            '-',
            '}',
            '\n',
        ] + (if self.trailer is Some {
            block_text('5', self.trailer->0.raw@)
        } else {
            Seq::empty()
        })
    }

    /// The whole message in SWIFT form: blocks 1 and 2, block 3 when
    /// present, block 4 with one line per field (blank optional fields
    /// left out), and block 5 when present.
    pub fn to_mt_message(&self) -> (s: String)
        ensures
            s@ == self.mt_message_text(),
    {
        let mut out: Vec<char> = Vec::new();
        push_block(&mut out, '1', &string_chars(&self.basic_header.to_block_string()));
        push_block(&mut out, '2', &string_chars(&self.application_header.to_block_string()));
        let ghost head = out@;
        if let Some(u) = &self.user_header {
            push_block(&mut out, '3', &string_chars(&u.to_block_string()));
        }
        let ghost with_user = out@;
        out.push('{');
        out.push('4');
        out.push(':');
        let optional = T::optional_fields();
        let fields = self.fields.to_ordered_fields();
        let ghost fv = crate::parsing_utils::pair_views(fields@);
        let ghost start = out@;
        let mut i: usize = 0;
        assert(fv.take(0) =~= Seq::<FieldView>::empty());
        assert(start + block4_lines(fv.take(0), T::optional_tags()) =~= start);
        while i < fields.len()
            invariant
                i <= fields.len(),
                fv == crate::parsing_utils::pair_views(fields@),
                crate::text::str_views(optional@) == T::optional_tags(),
                out@ == start + block4_lines(fv.take(i as int), T::optional_tags()),
            decreases fields.len() - i,
        {
            let line = block4_line_exec(&fields[i].0, &fields[i].1, &optional);
            append_chars(&mut out, &line);
            proof {
                assert(fv.take(i + 1).drop_last() =~= fv.take(i as int));
                assert(fv.take(i + 1).last() == fv[i as int]);
            }
            i = i + 1;
        }
        assert(fv.take(fields.len() as int) =~= fv);
        out.push('\n');
        out.push('-');
        out.push('}');
        out.push('\n');
        if let Some(t) = &self.trailer {
            push_block(&mut out, '5', &string_chars(&t.to_block_string()));
        }
        proof {
            let user = if self.user_header is Some {
                block_text('3', self.user_header->0.raw@)
            } else {
                Seq::<char>::empty()
            };
            assert(with_user =~= head + user);
            assert(out@ =~= self.mt_message_text());
        }
        from_chars(&out)
    }
}

impl BasicHeader {
    /// The header in block form, as the specifications see it.
    pub open spec fn to_block_view(&self) -> Seq<char> {
        self.application_id@ + self.service_id@ + self.logical_terminal@ + self.session_number@
            + self.sequence_number@
    }
}

impl ApplicationHeader {
    /// The header in block form, as the specifications see it.
    pub open spec fn to_block_view(&self) -> Seq<char> {
        self.direction@ + self.message_type@ + self.rest@
    }
}

/// Appends `{n:content}` and a newline.
fn push_block(out: &mut Vec<char>, n: char, content: &Vec<char>)
    ensures
        final(out)@ == old(out)@ + block_text(n, content@),
{
    out.push('{');
    out.push(n);
    out.push(':');
    append_chars(out, content);
    out.push('}');
    out.push('\n');
    assert(out@ =~= old(out)@ + block_text(n, content@));
}

/// `block4_line` in executable form.
fn block4_line_exec(tag: &String, value: &String, optional: &Vec<&'static str>) -> (r: Vec<char>)
    ensures
        r@ == block4_line((tag@, value@), crate::text::str_views(optional@)),
{
    let t = string_chars(tag);
    let v = string_chars(value);
    if crate::text::in_str_list(&t, optional.as_slice()) && trim_chars(&v).len() == 0 {
        return Vec::new();
    }
    let colon: Vec<char> = vec![':'];
    assert(colon@ =~= seq![':']);
    let mut r: Vec<char> = Vec::new();
    if starts_with_exec(&v, &colon) {
        r.push('\n');
        append_chars(&mut r, &v);
        assert(r@ =~= seq!['\n'] + v@);
    } else {
        r.push('\n');
        r.push(':');
        let b = string_chars(&crate::block4::extract_base_tag(tag.as_str()));
        append_chars(&mut r, &b);
        r.push(':');
        append_chars(&mut r, &v);
        assert(r@ =~= seq!['\n', ':'] + base_tag(tag@) + seq![':'] + v@);
    }
    r
}

impl<T: SwiftMessageBody> SwiftMessage<T> {
    /// The written message opens with block 1, holds block 4 after the
    /// headers, and, without a trailer, ends with the close of block 4.
    pub proof fn lemma_message_blocks(m: SwiftMessage<T>)
        ensures
            m.mt_message_text().len() >= 3,
            m.mt_message_text().subrange(0, 3) == seq!['{', '1', ':'],
            m.trailer is None ==> ({
                let t = m.mt_message_text();
                &&& t.len() >= 4
                &&& t.subrange(t.len() - 4, t.len() as int) == seq!['\n', '-', '}', '\n']
            }),
            ({
                let head = block_text('1', m.basic_header.to_block_view()) + block_text(
                    '2',
                    m.application_header.to_block_view(),
                ) + (if m.user_header is Some {
                    block_text('3', m.user_header->0.raw@)
                } else {
                    Seq::empty()
                });
                m.mt_message_text().subrange(head.len() as int, head.len() + 3int) == seq!['{', '4', ':']
            }),
    {
        let t = m.mt_message_text();
        let head = block_text('1', m.basic_header.to_block_view()) + block_text(
            '2',
            m.application_header.to_block_view(),
        ) + (if m.user_header is Some {
            block_text('3', m.user_header->0.raw@)
        } else {
            Seq::empty()
        });
        let body = block4_lines(m.fields.ordered(), T::optional_tags());
        let tail = seq!['\n', '-', '}', '\n'];
        assert(t == head + seq!['{', '4', ':'] + body + tail + (if m.trailer is Some {
            block_text('5', m.trailer->0.raw@)
        } else {
            Seq::empty()
        }));
        assert(t.subrange(0, 3) =~= seq!['{', '1', ':']);
        assert(t.subrange(head.len() as int, head.len() + 3int) =~= seq!['{', '4', ':']);
        if m.trailer is None {
            assert(t.subrange(t.len() - 4, t.len() as int) =~= tail);
        }
    }
}

/// `"k":` followed by the JSON value text `v`.
pub open spec fn json_entry(k: Seq<char>, v: Seq<char>) -> Seq<char> {
    json_str(k) + seq![':'] + v
}

/// The members of a constants object `{...}`, each after a comma; nothing
/// for the empty object.
pub open spec fn constant_members(c: Seq<char>) -> Seq<char> {
    if c.len() > 2 {
        seq![','] + c.subrange(1, c.len() - 1)
    } else {
        Seq::empty()
    }
}

/// `"k":`, added to `out`.
fn push_key(out: &mut Vec<char>, k: &str)
    ensures
        final(out)@ == old(out)@ + json_str(k@) + seq![':'],
{
    push_json_str(out, &to_chars(k));
    out.push(':');
}

impl<T: SwiftMessageBody> SwiftMessage<T> {
    /// The members of `message_context` in the validation data: the message
    /// type, the countries and BICs of sender and receiver, the priority and
    /// the delivery monitoring (`3` where the header has none).
    pub open spec fn context_members(&self) -> Seq<FieldView> {
        seq![
            ("message_type"@, self.message_type@),
            ("sender_country"@, country_of(self.basic_header.logical_terminal@)),
            ("receiver_country"@, country_of(self.application_header.destination_address@)),
            ("sender_bic"@, self.basic_header.logical_terminal@),
            ("receiver_bic"@, self.application_header.destination_address@),
            ("message_priority"@, self.application_header.priority@),
            ("delivery_monitoring"@, match self.application_header.delivery_monitoring {
                Some(d) => d@,
                None => "3"@,
            }),
        ]
    }

    /// The JSON data on which the rules are evaluated: the message type, the
    /// fields (tag to content), the members of the constants object, and
    /// the message context; a later member of the same name prevails.
    pub open spec fn context_text(&self, constants: Seq<char>) -> Seq<char> {
        seq!['{'] + json_entry("message_type"@, json_str(self.message_type@)) + seq![','] + json_entry(
            "fields"@,
            fields_object(self.fields.ordered()),
        ) + constant_members(constants) + seq![','] + json_entry(
            "message_context"@,
            fields_object(self.context_members()),
        ) + seq!['}']
    }

    /// The JSON data on which the rules are evaluated, with the constants
    /// object `constants` of the rules text.
    pub fn validation_context(&self, constants: &str) -> (s: String)
        ensures
            s@ == self.context_text(constants@),
    {
        let mut out: Vec<char> = vec!['{'];
        push_key(&mut out, "message_type");
        push_json_str(&mut out, &string_chars(&self.message_type));
        out.push(',');
        push_key(&mut out, "fields");
        let ordered = self.fields.to_ordered_fields();
        append_chars(&mut out, &fields_object_text(&ordered));
        let c = to_chars(constants);
        if c.len() > 2 {
            out.push(',');
            append_chars(&mut out, &clip_chars(&c, 1, c.len() - 1));
        }
        out.push(',');
        push_key(&mut out, "message_context");
        let (sender, receiver) = self.extract_country_codes_from_bics();
        let dm = match &self.application_header.delivery_monitoring {
            Some(d) => d.clone(),
            None => "3".to_string(),
        };
        let members = vec![
            ("message_type".to_string(), self.message_type.clone()),
            ("sender_country".to_string(), sender),
            ("receiver_country".to_string(), receiver),
            ("sender_bic".to_string(), self.basic_header.logical_terminal.clone()),
            ("receiver_bic".to_string(), self.application_header.destination_address.clone()),
            ("message_priority".to_string(), self.application_header.priority.clone()),
            ("delivery_monitoring".to_string(), dm),
        ];
        proof {
            reveal_strlit("3");
            assert(crate::parsing_utils::pair_views(members@) =~= self.context_members());
        }
        append_chars(&mut out, &fields_object_text(&members));
        out.push('}');
        proof {
            assert(clip(c@, 1, c@.len() - 1) == c@.subrange(1, c@.len() - 1) || c@.len() <= 2);
            assert(out@ =~= self.context_text(constants@));
        }
        from_chars(&out)
    }

    /// Validate message against business rules using JSONLogic: the rules
    /// text of the message type is read, each condition is evaluated on the
    /// data of `validation_context`, and the verdicts make the result.
    pub fn validate(&self) -> (r: ValidationResult)
        ensures
            match rules_text(T::type_code()) {
                None => unsupported_result_is(r, T::type_code()),
                Some(text) => match rules_of(text) {
                    Err(e) => unread_result_is(r, e),
                    Ok((rules, _)) => exists|os: Seq<RuleOutcome>|
                        outcomes_fit(os, rules) && #[trigger] tallied(r, os),
                },
            },
    {
        let message_type = T::message_type();
        let text = match validation_rules_for(message_type) {
            Some(t) => t,
            None => return unsupported_type_result(message_type),
        };
        match read_rules(text) {
            Err(e) => unread_result(e),
            Ok((rules, constants)) => {
                let data = self.validation_context(constants.as_str());
                let os = rule_outcomes(&rules, data.as_str());
                let r = tally_rules(&os);
                assert(tallied(r, os@));
                r
            },
        }
    }
}

} // verus!

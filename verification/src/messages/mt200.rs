//! MT200: Financial Institution Transfer for its Own Account

use vstd::prelude::*;
use crate::errors::ParseError;
use crate::message_parser::{
    error_is, item_views, layout_fits, layout_outcome, many_slot, opt_slot, parse_layout,
    rule_views, slot_fits, slot_views, slots_fit, take_many, take_one, take_opt, FieldRule, FieldView,
    LayoutView, MessageLayout, Parsed, ParsedView, RawField, RuleView,
};
use crate::parsing_utils::{
    block4_of, extract_block4, mt_text, pair_views, push_field, push_optional, push_repeated,
    render_mt,
};
use crate::text::str_views;
use crate::traits::SwiftMessageBody;

verus! {

/// MT200: Financial Institution Transfer for its Own Account
#[derive(Debug, Clone, PartialEq)]
pub struct MT200 {
    pub field_20: RawField,
    pub field_32a: RawField,
    pub field_53b: Option<RawField>,
    pub field_56: Option<RawField>,
    pub field_57: RawField,
    pub field_72: Option<RawField>,
}

impl MT200 {
    /// The layout of the message body.
    pub open spec fn body_layout() -> LayoutView {
        LayoutView {
            header: seq![
                RuleView::Mandatory("20"@),
                RuleView::Mandatory("32A"@),
                RuleView::Optional("53B"@),
                RuleView::OptionalOption("56"@, seq!["A"@, "D"@]),
                RuleView::MandatoryOption("57"@, seq!["A"@, "B"@, "D"@]),
                RuleView::Optional("72"@),
            ],
            item_start: ""@,
            items: Seq::empty(),
            trailer: Seq::empty(),
            complete: false,
        }
    }

    /// The fields of the message as its layout took them.
    pub open spec fn slots(&self) -> ParsedView {
        (
            seq![
                seq![self.field_20@],
                seq![self.field_32a@],
                opt_slot(self.field_53b),
                opt_slot(self.field_56),
                seq![self.field_57@],
                opt_slot(self.field_72),
            ],
            Seq::empty(),
            Seq::empty(),
        )
    }

    /// The fields of the message in writing order.
    pub open spec fn fields_in_order(&self) -> Seq<FieldView> {
        seq![self.field_20@]
            + seq![self.field_32a@]
            + opt_slot(self.field_53b)
            + opt_slot(self.field_56)
            + seq![self.field_57@]
            + opt_slot(self.field_72)
    }

    /// The layout of the message body.
    #[verifier::spinoff_prover]
    fn layout_rules() -> (l: MessageLayout)
        ensures
            l@ == Self::body_layout(),
    {
        let l = MessageLayout {
            header: vec![
                FieldRule::Mandatory("20"),
                FieldRule::Mandatory("32A"),
                FieldRule::Optional("53B"),
                FieldRule::OptionalOption("56", vec!["A", "D"]),
                FieldRule::MandatoryOption("57", vec!["A", "B", "D"]),
                FieldRule::Optional("72"),
            ],
            item_start: "",
            items: Vec::new(),
            trailer: Vec::new(),
            complete: false,
        };
        assert(l@.header =~~= Self::body_layout().header);
        assert(l@.trailer =~~= Self::body_layout().trailer);
        assert(l@.items =~~= Self::body_layout().items);
        l
    }

    /// The message built from the fields its layout took.
    #[verifier::spinoff_prover]
    #[verifier::rlimit(80)]
    fn from_parsed(p: Parsed) -> (m: MT200)
        requires
            layout_fits(Self::body_layout(), p@),
            p@.1.len() == 0,
        ensures
            m.slots() == p@,
    {
        let ghost pv = p@;
        let ghost all = pv.0;
        let ghost tail = pv.2;
        let Parsed { header, items, trailer } = p;
        let mut slots = header;
        assert(slot_views(slots@) =~= all.take(slots.len() as int));
        assert(slot_fits(Self::body_layout().header[0], all[0]));
        assert(slot_fits(Self::body_layout().header[1], all[1]));
        assert(slot_fits(Self::body_layout().header[2], all[2]));
        assert(slot_fits(Self::body_layout().header[3], all[3]));
        assert(slot_fits(Self::body_layout().header[4], all[4]));
        assert(slot_fits(Self::body_layout().header[5], all[5]));
        let field_72 = take_opt(&mut slots, Ghost(all));
        let field_57 = take_one(&mut slots, Ghost(all));
        let field_56 = take_opt(&mut slots, Ghost(all));
        let field_53b = take_opt(&mut slots, Ghost(all));
        let field_32a = take_one(&mut slots, Ghost(all));
        let field_20 = take_one(&mut slots, Ghost(all));
        let mut tslots = trailer;
        assert(slot_views(tslots@) =~= tail.take(tslots.len() as int));
        let m = MT200 { field_20, field_32a, field_53b, field_56, field_57, field_72 };
        assert(m.slots().0 =~= pv.0);
        assert(m.slots().1 =~= pv.1);
        assert(m.slots().2 =~= pv.2);
        m
    }

    /// What parsing `block4` by the layout gives: the message with the
    /// fields each rule took, or the error that stands for the failure.
    pub open spec fn taken(block4: Seq<char>, r: Result<MT200, ParseError>) -> bool {
        match layout_outcome(block4, Self::body_layout()) {
            Ok(p) => r matches Ok(m) && m.slots() == p,
            Err(e) => r matches Err(pe) && error_is(pe, e),
        }
    }

    /// Parse message from Block 4 content
    pub fn parse_from_block4(block4: &str) -> (r: Result<MT200, ParseError>)
        ensures
            Self::taken(block4@, r),
    {
        let layout = Self::layout_rules();
        match parse_layout(block4, "200", &layout) {
            Ok(p) => Ok(Self::from_parsed(p)),
            Err(e) => Err(e),
        }
    }

    /// The fields of the message as (tag, content) pairs, in writing order.
    pub fn to_ordered_fields(&self) -> (r: Vec<(String, String)>)
        ensures
            pair_views(r@) == self.fields_in_order(),
    {
        let mut v: Vec<(String, String)> = Vec::new();
        push_field(&mut v, &self.field_20);
        assert(pair_views(v@) =~= seq![self.field_20@]);
        push_field(&mut v, &self.field_32a);
        push_optional(&mut v, &self.field_53b);
        push_optional(&mut v, &self.field_56);
        push_field(&mut v, &self.field_57);
        push_optional(&mut v, &self.field_72);
        v
    }

    /// Convert to SWIFT MT text format
    pub fn to_mt_string(&self) -> (r: String)
        ensures
            r@ == mt_text(self.fields_in_order()),
    {
        render_mt(&self.to_ordered_fields())
    }

    /// Parse from SWIFT MT text format
    pub fn parse(input: &str) -> (r: Result<MT200, ParseError>)
        ensures
            match block4_of(input@) {
                Some(b) => Self::taken(b, r),
                None => r matches Err(ParseError::InvalidFormat { message }) && message@
                    == "Block 4 not found"@,
            },
    {
        match extract_block4(input) {
            Ok(b) => Self::parse_from_block4(b.as_str()),
            Err(e) => Err(e),
        }
    }
}

impl SwiftMessageBody for MT200 {
    open spec fn type_code() -> Seq<char> {
        "200"@
    }

    open spec fn layout() -> LayoutView {
        Self::body_layout()
    }

    open spec fn parsed(&self) -> ParsedView {
        self.slots()
    }

    open spec fn ordered(&self) -> Seq<FieldView> {
        self.fields_in_order()
    }

    open spec fn parse_spec(block4: Seq<char>, r: Result<Self, ParseError>) -> bool {
        Self::taken(block4, r)
    }

    open spec fn required_tags() -> Seq<Seq<char>> {
        seq![
            "20"@,
            "32A"@,
            "57"@,
        ]
    }

    open spec fn optional_tags() -> Seq<Seq<char>> {
        seq![
            "53B"@,
            "56"@,
            "72"@,
        ]
    }

    open spec fn rejected(&self) -> bool {
        false
    }

    open spec fn returned(&self) -> bool {
        false
    }

    open spec fn cover(&self) -> bool {
        false
    }

    open spec fn stp(&self) -> bool {
        false
    }

    fn message_type() -> (r: &'static str) {
        "200"
    }

    fn parse_from_block4(block4: &str) -> (r: Result<Self, ParseError>) {
        MT200::parse_from_block4(block4)
    }

    fn to_ordered_fields(&self) -> (r: Vec<(String, String)>) {
        MT200::to_ordered_fields(self)
    }

    fn to_mt_string(&self) -> (r: String) {
        MT200::to_mt_string(self)
    }

    fn required_fields() -> (r: Vec<&'static str>) {
        let r = vec![
            "20",
            "32A",
            "57",
        ];
        assert(str_views(r@) =~= Self::required_tags());
        r
    }

    fn optional_fields() -> (r: Vec<&'static str>) {
        let r = vec![
            "53B",
            "56",
            "72",
        ];
        assert(str_views(r@) =~= Self::optional_tags());
        r
    }

    fn has_reject_codes(&self) -> (b: bool) {
        false
    }

    fn has_return_codes(&self) -> (b: bool) {
        false
    }

    fn is_cover_message(&self) -> (b: bool) {
        false
    }

    fn is_stp_message(&self) -> (b: bool) {
        false
    }
}

/// The first index from `i` on whose character is white space.
pub open spec fn first_ws(w: Seq<char>, i: int) -> Option<int>
    decreases w.len() - i,
{
    if i < 0 || i >= w.len() {
        None
    } else if crate::text::is_ws(w[i]) {
        Some(i)
    } else {
        first_ws(w, i + 1)
    }
}

/// The code of a line of field 72, in upper case: `/CODE/...`, or a line
/// `/CODE` up to its first white space.
pub open spec fn line_code(line: Seq<char>) -> Option<Seq<char>> {
    let t = crate::text::trim(line);
    if t.len() > 0 && t[0] == '/' {
        let w = t.skip(1);
        match crate::text::find_from(w, seq!['/'], 0) {
            Some(k) => Some(crate::swift_message::uppercase(w.take(k))),
            None => if w.len() > 0 {
                match first_ws(w, 0) {
                    Some(k) => Some(crate::swift_message::uppercase(w.take(k))),
                    None => Some(crate::swift_message::uppercase(w)),
                }
            } else {
                None
            },
        }
    } else {
        None
    }
}

/// The codes of the lines, in order.
pub open spec fn line_codes(ls: Seq<Seq<char>>) -> Seq<Seq<char>>
    decreases ls.len(),
{
    if ls.len() == 0 {
        Seq::empty()
    } else {
        match line_code(ls.last()) {
            Some(c) => line_codes(ls.drop_last()).push(c),
            None => line_codes(ls.drop_last()),
        }
    }
}

/// The T80 errors of the codes, in order: one for each REJT or RETN.
pub open spec fn t80_errors(codes: Seq<Seq<char>>) -> Seq<crate::errors::ValidationErrorView>
    decreases codes.len(),
{
    if codes.len() == 0 {
        Seq::empty()
    } else {
        let c = codes.last();
        let rest = t80_errors(codes.drop_last());
        if c == "REJT"@ || c == "RETN"@ {
            rest.push(
                (
                    "T80"@,
                    "72"@,
                    c,
                    "When field 72 contains /REJT/ or /RETN/, the message must follow SWIFT Payments Reject/Return Guidelines"@,
                    "Field 72 contains code /"@ + c
                        + "/. Message must comply with SWIFT Payments Reject/Return Guidelines"@,
                ),
            )
        } else {
            rest
        }
    }
}

/// The codes of field 72.
pub open spec fn field_72_codes(f: Option<RawField>) -> Seq<Seq<char>> {
    match f {
        Some(x) => line_codes(crate::text::lines(x.value@)),
        None => Seq::empty(),
    }
}

/// The code of one line.
fn line_code_exec(line: &Vec<char>) -> (r: Option<String>)
    ensures
        match line_code(line@) {
            Some(c) => r matches Some(x) && x@ == c,
            None => r is None,
        },
{
    let t = crate::text::trim_chars(line);
    if t.len() > 0 && t[0] == '/' {
        let w = crate::text::slice_chars(&t, 1, t.len());
        assert(w@ =~= t@.skip(1));
        match crate::text::find_char(&w, '/', 0) {
            Some(k) => {
                let code = crate::text::slice_chars(&w, 0, k);
                assert(code@ =~= w@.take(k as int));
                Some(crate::swift_message::to_uppercase(crate::text::from_chars(&code).as_str()))
            },
            None => {
                if w.len() > 0 {
                    let mut i: usize = 0;
                    while i < w.len() && !crate::text::is_ws_exec(w[i])
                        invariant
                            i <= w.len(),
                            first_ws(w@, 0) == first_ws(w@, i as int),
                        decreases w.len() - i,
                    {
                        i = i + 1;
                    }
                    if i < w.len() {
                        let code = crate::text::slice_chars(&w, 0, i);
                        assert(code@ =~= w@.take(i as int));
                        Some(crate::swift_message::to_uppercase(crate::text::from_chars(&code).as_str()))
                    } else {
                        Some(crate::swift_message::to_uppercase(crate::text::from_chars(&w).as_str()))
                    }
                } else {
                    None
                }
            },
        }
    } else {
        None
    }
}

impl MT200 {
    /// The codes of field 72, in order.
    fn extract_72_codes(&self) -> (r: Vec<String>)
        ensures
            crate::text::string_views(r@) == field_72_codes(self.field_72),
    {
        let mut out: Vec<String> = Vec::new();
        if let Some(f) = &self.field_72 {
            let ls = crate::text::lines_exec(&crate::text::string_chars(&f.value));
            let ghost lv = crate::text::views(ls@);
            let mut i: usize = 0;
            while i < ls.len()
                invariant
                    i <= ls.len(),
                    lv == crate::text::views(ls@),
                    crate::text::string_views(out@) == line_codes(lv.take(i as int)),
                decreases ls.len() - i,
            {
                let ghost before = crate::text::string_views(out@);
                let c = line_code_exec(&ls[i]);
                proof {
                    assert(lv[i as int] == ls@[i as int]@);
                    assert(lv.take(i + 1).drop_last() =~= lv.take(i as int));
                    assert(lv.take(i + 1).last() == lv[i as int]);
                }
                if let Some(code) = c {
                    out.push(code);
                    assert(crate::text::string_views(out@) =~= before.push(out@.last()@));
                }
                i = i + 1;
            }
            assert(lv.take(ls.len() as int) =~= lv);
        } else {
            assert(crate::text::string_views(out@) =~= Seq::<Seq<char>>::empty());
        }
        out
    }

    /// Network validated rule T80: each code REJT or RETN of field 72 asks
    /// the message to follow the Payments Reject/Return Guidelines.
    pub fn validate_network_rules(&self, stop_on_first_error: bool) -> (r: Vec<
        crate::errors::SwiftValidationError,
    >)
        ensures
            crate::errors::error_views(r@) == t80_errors(field_72_codes(self.field_72)),
    {
        let codes = self.extract_72_codes();
        let ghost cv = crate::text::string_views(codes@);
        let mut out: Vec<crate::errors::SwiftValidationError> = Vec::new();
        let mut i: usize = 0;
        while i < codes.len()
            invariant
                i <= codes.len(),
                cv == crate::text::string_views(codes@),
                crate::errors::error_views(out@) == t80_errors(cv.take(i as int)),
            decreases codes.len() - i,
        {
            let c = crate::text::string_chars(&codes[i]);
            let ghost before = crate::errors::error_views(out@);
            proof {
                assert(cv[i as int] == codes@[i as int]@);
                assert(cv.take(i + 1).drop_last() =~= cv.take(i as int));
                assert(cv.take(i + 1).last() == c@);
            }
            if crate::text::chars_eq(&c, &crate::text::to_chars("REJT")) || crate::text::chars_eq(
                &c,
                &crate::text::to_chars("RETN"),
            ) {
                let mut m = crate::text::to_chars("Field 72 contains code /");
                crate::text::append_chars(&mut m, &c);
                crate::text::append_chars(&mut m, &crate::text::to_chars("/. Message must comply with SWIFT Payments Reject/Return Guidelines"));
                let ms = crate::text::from_chars(&m);
                let e = crate::errors::SwiftValidationError::content_error(
                    "T80",
                    "72",
                    codes[i].as_str(),
                    ms.as_str(),
                    "When field 72 contains /REJT/ or /RETN/, the message must follow SWIFT Payments Reject/Return Guidelines",
                );
                out.push(e);
                assert(crate::errors::error_views(out@) =~= before.push(e@));
            }
            i = i + 1;
        }
        assert(cv.take(codes.len() as int) =~= cv);
        out
    }
}

impl MT200 {
    /// Writing the message and parsing the text again gives back its
    /// fields, slot by slot, wherever each field carries a tag that its rule
    /// reads back and reads back as written.
    pub proof fn lemma_round_trip(m: MT200)
        requires
            crate::round_trip::accepted_slots(Self::body_layout().header, m.slots().0),
            crate::round_trip::writable_fields(m.fields_in_order()),
        ensures
            forall|r: Result<MT200, ParseError>|
                Self::taken(mt_text(m.fields_in_order()), r) ==> (r matches Ok(x) && x.slots() == m.slots()),
    {
        reveal_strlit("20");
        reveal_strlit("32A");
        reveal_strlit("53B");
        reveal_strlit("56");
        reveal_strlit("57");
        reveal_strlit("72");
        let l = Self::body_layout();
        let s = m.slots().0;
        reveal_with_fuel(crate::round_trip::flat, 7);
        assert(crate::round_trip::flat(s) =~= m.fields_in_order());
        let tags = seq!["20"@, "32A"@, "53B"@, "56"@, "57"@, "72"@];
        assert forall|i: int| 0 <= i < l.header.len() implies crate::round_trip::rule_tag(#[trigger] l.header[i]) == tags[i]
 by {}
        assert forall|i: int, j: int| 0 <= i < l.header.len() && 0 <= j < l.header.len() && i != j implies crate::round_trip::apart(#[trigger] l.header[i], #[trigger] l.header[j]) by {
            crate::round_trip::lemma_apart(l.header[i], l.header[j]);
        }
        assert(crate::round_trip::separate_rules(l.header));
        assert forall|i: int| 0 <= i < l.header.len() implies slot_fits(#[trigger] l.header[i], s[i]) by {}
        assert(slots_fit(l.header, s));
        crate::round_trip::lemma_separate_layout_round_trip(l, s);
        assert(m.slots() == (s, Seq::<Seq<Seq<FieldView>>>::empty(), Seq::<Seq<FieldView>>::empty()));
    }
}

/// A code REJT or RETN among the codes of field 72 gives a T80 error
/// naming that code.
proof fn lemma_t80_found(codes: Seq<Seq<char>>, i: int)
    requires
        0 <= i < codes.len(),
        codes[i] == "REJT"@ || codes[i] == "RETN"@,
    ensures
        exists|k: int| 0 <= k < t80_errors(codes).len() && (#[trigger] t80_errors(codes)[k]).0 == "T80"@
            && t80_errors(codes)[k].2 == codes[i],
    decreases codes.len(),
{
    let l = codes.len() - 1;
    if i == l {
        let e = t80_errors(codes);
        assert(e[e.len() - 1].2 == codes[i]);
    } else {
        lemma_t80_found(codes.drop_last(), i);
        let p = t80_errors(codes.drop_last());
        let k = choose|k: int| 0 <= k < p.len() && (#[trigger] p[k]).0 == "T80"@ && p[k].2 == codes.drop_last()[i];
        assert(t80_errors(codes)[k] == p[k]);
    }
}

/// Codes of field 72 other than REJT and RETN give no T80 error.
proof fn lemma_t80_none(codes: Seq<Seq<char>>)
    requires
        forall|i: int| 0 <= i < codes.len() ==> #[trigger] codes[i] != "REJT"@ && codes[i] != "RETN"@,
    ensures
        t80_errors(codes).len() == 0,
    decreases codes.len(),
{
    if codes.len() > 0 {
        let p = codes.drop_last();
        assert forall|i: int| 0 <= i < p.len() implies #[trigger] p[i] != "REJT"@ && p[i] != "RETN"@ by {
            assert(p[i] == codes[i]);
        }
        lemma_t80_none(p);
        assert(codes[codes.len() - 1] != "REJT"@);
    }
}

impl MT200 {
    /// A reject or return code (REJT, RETN) on a line of field 72 gives a
    /// T80 error naming it; field 72 without such codes gives none.
    pub proof fn lemma_reject_return_codes(m: MT200)
        ensures
            (exists|i: int| 0 <= i < field_72_codes(m.field_72).len() && (#[trigger] field_72_codes(m.field_72)[i] == "REJT"@
                || field_72_codes(m.field_72)[i] == "RETN"@)) <==> t80_errors(field_72_codes(m.field_72)).len() > 0,
            forall|i: int| 0 <= i < field_72_codes(m.field_72).len() && (#[trigger] field_72_codes(m.field_72)[i] == "REJT"@
                || field_72_codes(m.field_72)[i] == "RETN"@) ==> exists|k: int|
                0 <= k < t80_errors(field_72_codes(m.field_72)).len() && (#[trigger] t80_errors(field_72_codes(m.field_72))[k]).0 == "T80"@
                    && t80_errors(field_72_codes(m.field_72))[k].2 == field_72_codes(m.field_72)[i],
    {
        let codes = field_72_codes(m.field_72);
        assert forall|i: int| 0 <= i < codes.len() && (#[trigger] codes[i] == "REJT"@ || codes[i] == "RETN"@) implies exists|k: int|
            0 <= k < t80_errors(codes).len() && (#[trigger] t80_errors(codes)[k]).0 == "T80"@ && t80_errors(codes)[k].2 == codes[i] by {
            lemma_t80_found(codes, i);
        }
        if !(exists|i: int| 0 <= i < codes.len() && (#[trigger] codes[i] == "REJT"@ || codes[i] == "RETN"@)) {
            lemma_t80_none(codes);
        }
    }
}

} // verus!

//! MT103: Single Customer Credit Transfer
//!
//! Used to convey funds transfer instructions between financial institutions where the ordering
//! or beneficiary customer (or both) are non-financial institutions.

use vstd::prelude::*;
use crate::errors::ParseError;
use crate::message_parser::{
    error_is, item_views, layout_fits, layout_outcome, many_slot, opt_slot, parse_layout,
    rule_views, slot_fits, slot_views, slots_fit, take_many, take_one, take_opt, FieldRule, FieldView,
    LayoutView, MessageLayout, Parsed, ParsedView, RawField, RuleView,
};
use crate::parsing_utils::{
    block4_of, extract_block4, mt_text, pair_views, push_field, push_optional, push_repeated,
    render_mt,
};
use crate::text::str_views;
use crate::traits::SwiftMessageBody;
use crate::messages::narrative::{field_mentions, field_starts_with, instruction_code, instruction_code_of, mentions};
use crate::text::{chars_eq, in_str_list, starts_with, string_chars, to_chars};

verus! {

/// The validation rules of the message, as JSONLogic.
pub const VALIDATION_RULES: &'static str = r#"{"rules": [{"id": "BASIC", "description": "Basic validation", "condition": true}]}"#;

/// MT103: Single Customer Credit Transfer
#[derive(Debug, Clone, PartialEq)]
pub struct MT103 {
    pub field_20: RawField,
    pub field_23b: RawField,
    pub field_32a: RawField,
    pub field_50: RawField,
    pub field_59: RawField,
    pub field_71a: RawField,
    pub field_13c: Option<Vec<RawField>>,
    pub field_23e: Option<Vec<RawField>>,
    pub field_26t: Option<RawField>,
    pub field_33b: Option<RawField>,
    pub field_36: Option<RawField>,
    pub field_51a: Option<RawField>,
    pub field_52: Option<RawField>,
    pub field_53: Option<RawField>,
    pub field_54: Option<RawField>,
    pub field_55: Option<RawField>,
    pub field_56: Option<RawField>,
    pub field_57: Option<RawField>,
    pub field_70: Option<RawField>,
    pub field_71f: Option<Vec<RawField>>,
    pub field_71g: Option<RawField>,
    pub field_72: Option<RawField>,
    pub field_77b: Option<RawField>,
    pub field_77t: Option<RawField>,
}

impl MT103 {
    /// The layout of the message body.
    pub open spec fn body_layout() -> LayoutView {
        LayoutView {
            header: seq![
                RuleView::Mandatory("20"@),
                RuleView::Mandatory("23B"@),
                RuleView::Mandatory("32A"@),
                RuleView::MandatoryOption("50"@, seq!["A"@, "F"@, "K"@]),
                RuleView::Optional("51A"@),
                RuleView::OptionalOption("52"@, seq!["A"@, "D"@]),
                RuleView::OptionalOption("53"@, seq!["A"@, "B"@, "D"@]),
                RuleView::OptionalOption("54"@, seq!["A"@, "B"@, "D"@]),
                RuleView::OptionalOption("55"@, seq!["A"@, "B"@, "D"@]),
                RuleView::OptionalOption("56"@, seq!["A"@, "C"@, "D"@]),
                RuleView::OptionalOption("57"@, seq!["A"@, "B"@, "C"@, "D"@]),
                RuleView::MandatoryOption("59"@, seq![""@, "A"@, "F"@]),
                RuleView::Optional("70"@),
                RuleView::Mandatory("71A"@),
                RuleView::Optional("26T"@),
                RuleView::Optional("33B"@),
                RuleView::Optional("36"@),
                RuleView::Optional("71G"@),
                RuleView::Optional("72"@),
                RuleView::Optional("77B"@),
                RuleView::Optional("77T"@),
                RuleView::Repeated("13C"@),
                RuleView::Repeated("23E"@),
                RuleView::Repeated("71F"@),
            ],
            item_start: ""@,
            items: Seq::empty(),
            trailer: Seq::empty(),
            complete: true,
        }
    }

    /// The fields of the message as its layout took them.
    pub open spec fn slots(&self) -> ParsedView {
        (
            seq![
                seq![self.field_20@],
                seq![self.field_23b@],
                seq![self.field_32a@],
                seq![self.field_50@],
                opt_slot(self.field_51a),
                opt_slot(self.field_52),
                opt_slot(self.field_53),
                opt_slot(self.field_54),
                opt_slot(self.field_55),
                opt_slot(self.field_56),
                opt_slot(self.field_57),
                seq![self.field_59@],
                opt_slot(self.field_70),
                seq![self.field_71a@],
                opt_slot(self.field_26t),
                opt_slot(self.field_33b),
                opt_slot(self.field_36),
                opt_slot(self.field_71g),
                opt_slot(self.field_72),
                opt_slot(self.field_77b),
                opt_slot(self.field_77t),
                many_slot(self.field_13c),
                many_slot(self.field_23e),
                many_slot(self.field_71f),
            ],
            Seq::empty(),
            Seq::empty(),
        )
    }

    /// The fields of the message in writing order.
    pub open spec fn fields_in_order(&self) -> Seq<FieldView> {
        seq![self.field_20@]
            + many_slot(self.field_13c)
            + seq![self.field_23b@]
            + many_slot(self.field_23e)
            + opt_slot(self.field_26t)
            + seq![self.field_32a@]
            + opt_slot(self.field_33b)
            + opt_slot(self.field_36)
            + seq![self.field_50@]
            + opt_slot(self.field_51a)
            + opt_slot(self.field_52)
            + opt_slot(self.field_53)
            + opt_slot(self.field_54)
            + opt_slot(self.field_55)
            + opt_slot(self.field_56)
            + opt_slot(self.field_57)
            + seq![self.field_59@]
            + opt_slot(self.field_70)
            + seq![self.field_71a@]
            + many_slot(self.field_71f)
            + opt_slot(self.field_71g)
            + opt_slot(self.field_72)
            + opt_slot(self.field_77b)
            + opt_slot(self.field_77t)
    }

    /// The layout of the message body.
    #[verifier::spinoff_prover]
    fn layout_rules() -> (l: MessageLayout)
        ensures
            l@ == Self::body_layout(),
    {
        let l = MessageLayout {
            header: vec![
                FieldRule::Mandatory("20"),
                FieldRule::Mandatory("23B"),
                FieldRule::Mandatory("32A"),
                FieldRule::MandatoryOption("50", vec!["A", "F", "K"]),
                FieldRule::Optional("51A"),
                FieldRule::OptionalOption("52", vec!["A", "D"]),
                FieldRule::OptionalOption("53", vec!["A", "B", "D"]),
                FieldRule::OptionalOption("54", vec!["A", "B", "D"]),
                FieldRule::OptionalOption("55", vec!["A", "B", "D"]),
                FieldRule::OptionalOption("56", vec!["A", "C", "D"]),
                FieldRule::OptionalOption("57", vec!["A", "B", "C", "D"]),
                FieldRule::MandatoryOption("59", vec!["", "A", "F"]),
                FieldRule::Optional("70"),
                FieldRule::Mandatory("71A"),
                FieldRule::Optional("26T"),
                FieldRule::Optional("33B"),
                FieldRule::Optional("36"),
                FieldRule::Optional("71G"),
                FieldRule::Optional("72"),
                FieldRule::Optional("77B"),
                FieldRule::Optional("77T"),
                FieldRule::Repeated("13C"),
                FieldRule::Repeated("23E"),
                FieldRule::Repeated("71F"),
            ],
            item_start: "",
            items: Vec::new(),
            trailer: Vec::new(),
            complete: true,
        };
        assert(l@.header =~~= Self::body_layout().header);
        assert(l@.trailer =~~= Self::body_layout().trailer);
        assert(l@.items =~~= Self::body_layout().items);
        l
    }

    /// The message built from the fields its layout took.
    #[verifier::spinoff_prover]
    #[verifier::rlimit(80)]
    fn from_parsed(p: Parsed) -> (m: MT103)
        requires
            layout_fits(Self::body_layout(), p@),
            p@.1.len() == 0,
        ensures
            m.slots() == p@,
    {
        let ghost pv = p@;
        let ghost all = pv.0;
        let ghost tail = pv.2;
        let Parsed { header, items, trailer } = p;
        let mut slots = header;
        assert(slot_views(slots@) =~= all.take(slots.len() as int));
        assert(slot_fits(Self::body_layout().header[0], all[0]));
        assert(slot_fits(Self::body_layout().header[1], all[1]));
        assert(slot_fits(Self::body_layout().header[2], all[2]));
        assert(slot_fits(Self::body_layout().header[3], all[3]));
        assert(slot_fits(Self::body_layout().header[4], all[4]));
        assert(slot_fits(Self::body_layout().header[5], all[5]));
        assert(slot_fits(Self::body_layout().header[6], all[6]));
        assert(slot_fits(Self::body_layout().header[7], all[7]));
        assert(slot_fits(Self::body_layout().header[8], all[8]));
        assert(slot_fits(Self::body_layout().header[9], all[9]));
        assert(slot_fits(Self::body_layout().header[10], all[10]));
        assert(slot_fits(Self::body_layout().header[11], all[11]));
        assert(slot_fits(Self::body_layout().header[12], all[12]));
        assert(slot_fits(Self::body_layout().header[13], all[13]));
        assert(slot_fits(Self::body_layout().header[14], all[14]));
        assert(slot_fits(Self::body_layout().header[15], all[15]));
        assert(slot_fits(Self::body_layout().header[16], all[16]));
        assert(slot_fits(Self::body_layout().header[17], all[17]));
        assert(slot_fits(Self::body_layout().header[18], all[18]));
        assert(slot_fits(Self::body_layout().header[19], all[19]));
        assert(slot_fits(Self::body_layout().header[20], all[20]));
        assert(slot_fits(Self::body_layout().header[21], all[21]));
        assert(slot_fits(Self::body_layout().header[22], all[22]));
        assert(slot_fits(Self::body_layout().header[23], all[23]));
        let field_71f = take_many(&mut slots, Ghost(all));
        let field_23e = take_many(&mut slots, Ghost(all));
        let field_13c = take_many(&mut slots, Ghost(all));
        let field_77t = take_opt(&mut slots, Ghost(all));
        let field_77b = take_opt(&mut slots, Ghost(all));
        let field_72 = take_opt(&mut slots, Ghost(all));
        let field_71g = take_opt(&mut slots, Ghost(all));
        let field_36 = take_opt(&mut slots, Ghost(all));
        let field_33b = take_opt(&mut slots, Ghost(all));
        let field_26t = take_opt(&mut slots, Ghost(all));
        let field_71a = take_one(&mut slots, Ghost(all));
        let field_70 = take_opt(&mut slots, Ghost(all));
        let field_59 = take_one(&mut slots, Ghost(all));
        let field_57 = take_opt(&mut slots, Ghost(all));
        let field_56 = take_opt(&mut slots, Ghost(all));
        let field_55 = take_opt(&mut slots, Ghost(all));
        let field_54 = take_opt(&mut slots, Ghost(all));
        let field_53 = take_opt(&mut slots, Ghost(all));
        let field_52 = take_opt(&mut slots, Ghost(all));
        let field_51a = take_opt(&mut slots, Ghost(all));
        let field_50 = take_one(&mut slots, Ghost(all));
        let field_32a = take_one(&mut slots, Ghost(all));
        let field_23b = take_one(&mut slots, Ghost(all));
        let field_20 = take_one(&mut slots, Ghost(all));
        let mut tslots = trailer;
        assert(slot_views(tslots@) =~= tail.take(tslots.len() as int));
        let m = MT103 { field_20, field_23b, field_32a, field_50, field_59, field_71a, field_13c, field_23e, field_26t, field_33b, field_36, field_51a, field_52, field_53, field_54, field_55, field_56, field_57, field_70, field_71f, field_71g, field_72, field_77b, field_77t };
        assert(m.slots().0 =~= pv.0);
        assert(m.slots().1 =~= pv.1);
        assert(m.slots().2 =~= pv.2);
        m
    }

    /// What parsing `block4` by the layout gives: the message with the
    /// fields each rule took, or the error that stands for the failure.
    pub open spec fn taken(block4: Seq<char>, r: Result<MT103, ParseError>) -> bool {
        match layout_outcome(block4, Self::body_layout()) {
            Ok(p) => r matches Ok(m) && m.slots() == p,
            Err(e) => r matches Err(pe) && error_is(pe, e),
        }
    }

    /// Parse message from Block 4 content
    pub fn parse_from_block4(block4: &str) -> (r: Result<MT103, ParseError>)
        ensures
            Self::taken(block4@, r),
    {
        let layout = Self::layout_rules();
        match parse_layout(block4, "103", &layout) {
            Ok(p) => Ok(Self::from_parsed(p)),
            Err(e) => Err(e),
        }
    }

    /// The fields of the message as (tag, content) pairs, in writing order.
    pub fn to_ordered_fields(&self) -> (r: Vec<(String, String)>)
        ensures
            pair_views(r@) == self.fields_in_order(),
    {
        let mut v: Vec<(String, String)> = Vec::new();
        push_field(&mut v, &self.field_20);
        assert(pair_views(v@) =~= seq![self.field_20@]);
        push_repeated(&mut v, &self.field_13c);
        push_field(&mut v, &self.field_23b);
        push_repeated(&mut v, &self.field_23e);
        push_optional(&mut v, &self.field_26t);
        push_field(&mut v, &self.field_32a);
        push_optional(&mut v, &self.field_33b);
        push_optional(&mut v, &self.field_36);
        push_field(&mut v, &self.field_50);
        push_optional(&mut v, &self.field_51a);
        push_optional(&mut v, &self.field_52);
        push_optional(&mut v, &self.field_53);
        push_optional(&mut v, &self.field_54);
        push_optional(&mut v, &self.field_55);
        push_optional(&mut v, &self.field_56);
        push_optional(&mut v, &self.field_57);
        push_field(&mut v, &self.field_59);
        push_optional(&mut v, &self.field_70);
        push_field(&mut v, &self.field_71a);
        push_repeated(&mut v, &self.field_71f);
        push_optional(&mut v, &self.field_71g);
        push_optional(&mut v, &self.field_72);
        push_optional(&mut v, &self.field_77b);
        push_optional(&mut v, &self.field_77t);
        v
    }

    /// Convert to SWIFT MT text format
    pub fn to_mt_string(&self) -> (r: String)
        ensures
            r@ == mt_text(self.fields_in_order()),
    {
        render_mt(&self.to_ordered_fields())
    }

    /// Parse from SWIFT MT text format
    pub fn parse(input: &str) -> (r: Result<MT103, ParseError>)
        ensures
            match block4_of(input@) {
                Some(b) => Self::taken(b, r),
                None => r matches Err(ParseError::InvalidFormat { message }) && message@
                    == "Block 4 not found"@,
            },
    {
        match extract_block4(input) {
            Ok(b) => Self::parse_from_block4(b.as_str()),
            Err(e) => Err(e),
        }
    }

    /// Validation rules for the message
    pub fn validate() -> (r: &'static str)
        ensures
            r@ == VALIDATION_RULES@,
    {
        VALIDATION_RULES
    }

    /// The message carries the reject code `/REJT/` in field 72.
    pub open spec fn carries_reject_code(&self) -> bool {
        mentions(self.field_72, "/REJT/"@)
    }

    /// Check if this MT103 message contains reject codes
    pub fn has_reject_codes(&self) -> (b: bool)
        ensures
            b == self.carries_reject_code(),
    {
        field_mentions(&self.field_72, "/REJT/")
    }

    /// Field 72 carries a return code.
    pub open spec fn carries_return_code(&self) -> bool {
        mentions(self.field_72, "/RETN/"@)
    }

    /// Check if this MT103 message contains return codes
    pub fn has_return_codes(&self) -> (b: bool)
        ensures
            b == self.carries_return_code(),
    {
        field_mentions(&self.field_72, "/RETN/")
    }

    /// The STP rules: with bank operation code SPRI, field 23E holds only
    /// SDVA, TELB, PHOB or INTC and field 56 is absent; with SSTD or SPAY,
    /// field 23E is absent; with any other code there is nothing to check.
    pub open spec fn stp_compliant(&self) -> bool {
        let op = self.field_23b.value@;
        if op == "SPRI"@ {
            &&& (self.field_23e matches Some(v) ==> forall|i: int|
                0 <= i < v.len() ==> seq!["SDVA"@, "TELB"@, "PHOB"@, "INTC"@].contains(
                    instruction_code(#[trigger] v@[i].value@),
                ))
            &&& self.field_56 is None
        } else if op == "SSTD"@ || op == "SPAY"@ {
            self.field_23e is None
        } else {
            true
        }
    }

    /// Check if this MT103 message is STP compliant
    pub fn is_stp_compliant(&self) -> (b: bool)
        ensures
            b == self.stp_compliant(),
    {
        let op = string_chars(&self.field_23b.value);
        if chars_eq(&op, &to_chars("SPRI")) {
            if let Some(codes) = &self.field_23e {
                let allowed: Vec<&str> = vec!["SDVA", "TELB", "PHOB", "INTC"];
                assert(str_views(allowed@) =~= seq!["SDVA"@, "TELB"@, "PHOB"@, "INTC"@]);
                let mut i: usize = 0;
                while i < codes.len()
                    invariant
                        i <= codes.len(),
                        self.field_23e == Some(*codes),
                        self.field_23b.value@ == "SPRI"@,
                        str_views(allowed@) == seq!["SDVA"@, "TELB"@, "PHOB"@, "INTC"@],
                        forall|j: int|
                            0 <= j < i ==> seq!["SDVA"@, "TELB"@, "PHOB"@, "INTC"@].contains(
                                instruction_code(#[trigger] codes@[j].value@),
                            ),
                    decreases codes.len() - i,
                {
                    let code = instruction_code_of(&codes[i]);
                    if !in_str_list(&code, allowed.as_slice()) {
                        proof {
                            let v = self.field_23e->0;
                            assert(v@[i as int].value@ == codes@[i as int].value@);
                            assert(!seq!["SDVA"@, "TELB"@, "PHOB"@, "INTC"@].contains(
                                instruction_code(v@[i as int].value@),
                            ));
                            assert(!self.stp_compliant());
                        }
                        return false;
                    }
                    i = i + 1;
                }
            }
            self.field_56.is_none()
        } else if chars_eq(&op, &to_chars("SSTD")) || chars_eq(&op, &to_chars("SPAY")) {
            self.field_23e.is_none()
        } else {
            true
        }
    }
}

impl SwiftMessageBody for MT103 {
    open spec fn type_code() -> Seq<char> {
        "103"@
    }

    open spec fn layout() -> LayoutView {
        Self::body_layout()
    }

    open spec fn parsed(&self) -> ParsedView {
        self.slots()
    }

    open spec fn ordered(&self) -> Seq<FieldView> {
        self.fields_in_order()
    }

    open spec fn parse_spec(block4: Seq<char>, r: Result<Self, ParseError>) -> bool {
        Self::taken(block4, r)
    }

    open spec fn required_tags() -> Seq<Seq<char>> {
        seq![
            "20"@,
            "23B"@,
            "32A"@,
            "50"@,
            "59"@,
            "71A"@,
        ]
    }

    open spec fn optional_tags() -> Seq<Seq<char>> {
        seq![
            "51A"@,
            "52"@,
            "53"@,
            "54"@,
            "55"@,
            "56"@,
            "57"@,
            "70"@,
            "26T"@,
            "33B"@,
            "36"@,
            "71G"@,
            "72"@,
            "77B"@,
            "77T"@,
            "13C"@,
            "23E"@,
            "71F"@,
        ]
    }

    open spec fn rejected(&self) -> bool {
        starts_with(self.field_20.value@, "REJT"@) || self.carries_reject_code()
    }

    open spec fn returned(&self) -> bool {
        starts_with(self.field_20.value@, "RETN"@) || mentions(self.field_72, "/RETN/"@)
    }

    open spec fn cover(&self) -> bool {
        false
    }

    open spec fn stp(&self) -> bool {
        self.stp_compliant()
    }

    fn message_type() -> (r: &'static str) {
        "103"
    }

    fn parse_from_block4(block4: &str) -> (r: Result<Self, ParseError>) {
        MT103::parse_from_block4(block4)
    }

    fn to_ordered_fields(&self) -> (r: Vec<(String, String)>) {
        MT103::to_ordered_fields(self)
    }

    fn to_mt_string(&self) -> (r: String) {
        MT103::to_mt_string(self)
    }

    fn required_fields() -> (r: Vec<&'static str>) {
        let r = vec![
            "20",
            "23B",
            "32A",
            "50",
            "59",
            "71A",
        ];
        assert(str_views(r@) =~= Self::required_tags());
        r
    }

    fn optional_fields() -> (r: Vec<&'static str>) {
        let r = vec![
            "51A",
            "52",
            "53",
            "54",
            "55",
            "56",
            "57",
            "70",
            "26T",
            "33B",
            "36",
            "71G",
            "72",
            "77B",
            "77T",
            "13C",
            "23E",
            "71F",
        ];
        assert(str_views(r@) =~= Self::optional_tags());
        r
    }

    fn has_reject_codes(&self) -> (b: bool) {
        field_starts_with(&self.field_20, "REJT") || MT103::has_reject_codes(self)
    }

    fn has_return_codes(&self) -> (b: bool) {
        field_starts_with(&self.field_20, "RETN") || MT103::has_return_codes(self)
    }

    fn is_cover_message(&self) -> (b: bool) {
        false
    }

    fn is_stp_message(&self) -> (b: bool) {
        MT103::is_stp_compliant(self)
    }
}

impl MT103 {
    /// The rules of the layout stand apart.
    #[verifier::rlimit(100)]
    #[verifier::spinoff_prover]
    proof fn lemma_rules_apart()
        ensures
            crate::round_trip::separate_rules(Self::body_layout().header),
    {
        reveal_strlit("13C");
        reveal_strlit("20");
        reveal_strlit("23B");
        reveal_strlit("23E");
        reveal_strlit("26T");
        reveal_strlit("32A");
        reveal_strlit("33B");
        reveal_strlit("36");
        reveal_strlit("50");
        reveal_strlit("51A");
        reveal_strlit("52");
        reveal_strlit("53");
        reveal_strlit("54");
        reveal_strlit("55");
        reveal_strlit("56");
        reveal_strlit("57");
        reveal_strlit("59");
        reveal_strlit("70");
        reveal_strlit("71A");
        reveal_strlit("71F");
        reveal_strlit("71G");
        reveal_strlit("72");
        reveal_strlit("77B");
        reveal_strlit("77T");
        let l = Self::body_layout().header;
        let tags = seq!["20"@, "23B"@, "32A"@, "50"@, "51A"@, "52"@, "53"@, "54"@, "55"@, "56"@, "57"@, "59"@, "70"@, "71A"@, "26T"@, "33B"@, "36"@, "71G"@, "72"@, "77B"@, "77T"@, "13C"@, "23E"@, "71F"@];
        assert forall|i: int| 0 <= i < l.len() implies crate::round_trip::rule_tag(#[trigger] l[i]) == tags[i] by {}
        assert forall|j: int| 0 <= j < 24 && j != 0 implies crate::round_trip::apart(l[0], #[trigger] l[j]) by {
            crate::round_trip::lemma_apart(l[0], l[j]);
        }
        assert forall|j: int| 0 <= j < 24 && j != 1 implies crate::round_trip::apart(l[1], #[trigger] l[j]) by {
            crate::round_trip::lemma_apart(l[1], l[j]);
        }
        assert forall|j: int| 0 <= j < 24 && j != 2 implies crate::round_trip::apart(l[2], #[trigger] l[j]) by {
            crate::round_trip::lemma_apart(l[2], l[j]);
        }
        assert forall|j: int| 0 <= j < 24 && j != 3 implies crate::round_trip::apart(l[3], #[trigger] l[j]) by {
            crate::round_trip::lemma_apart(l[3], l[j]);
        }
        assert forall|j: int| 0 <= j < 24 && j != 4 implies crate::round_trip::apart(l[4], #[trigger] l[j]) by {
            crate::round_trip::lemma_apart(l[4], l[j]);
        }
        assert forall|j: int| 0 <= j < 24 && j != 5 implies crate::round_trip::apart(l[5], #[trigger] l[j]) by {
            crate::round_trip::lemma_apart(l[5], l[j]);
        }
        assert forall|j: int| 0 <= j < 24 && j != 6 implies crate::round_trip::apart(l[6], #[trigger] l[j]) by {
            crate::round_trip::lemma_apart(l[6], l[j]);
        }
        assert forall|j: int| 0 <= j < 24 && j != 7 implies crate::round_trip::apart(l[7], #[trigger] l[j]) by {
            crate::round_trip::lemma_apart(l[7], l[j]);
        }
        assert forall|j: int| 0 <= j < 24 && j != 8 implies crate::round_trip::apart(l[8], #[trigger] l[j]) by {
            crate::round_trip::lemma_apart(l[8], l[j]);
        }
        assert forall|j: int| 0 <= j < 24 && j != 9 implies crate::round_trip::apart(l[9], #[trigger] l[j]) by {
            crate::round_trip::lemma_apart(l[9], l[j]);
        }
        assert forall|j: int| 0 <= j < 24 && j != 10 implies crate::round_trip::apart(l[10], #[trigger] l[j]) by {
            crate::round_trip::lemma_apart(l[10], l[j]);
        }
        assert forall|j: int| 0 <= j < 24 && j != 11 implies crate::round_trip::apart(l[11], #[trigger] l[j]) by {
            crate::round_trip::lemma_apart(l[11], l[j]);
        }
        assert forall|j: int| 0 <= j < 24 && j != 12 implies crate::round_trip::apart(l[12], #[trigger] l[j]) by {
            crate::round_trip::lemma_apart(l[12], l[j]);
        }
        assert forall|j: int| 0 <= j < 24 && j != 13 implies crate::round_trip::apart(l[13], #[trigger] l[j]) by {
            crate::round_trip::lemma_apart(l[13], l[j]);
        }
        assert forall|j: int| 0 <= j < 24 && j != 14 implies crate::round_trip::apart(l[14], #[trigger] l[j]) by {
            crate::round_trip::lemma_apart(l[14], l[j]);
        }
        assert forall|j: int| 0 <= j < 24 && j != 15 implies crate::round_trip::apart(l[15], #[trigger] l[j]) by {
            crate::round_trip::lemma_apart(l[15], l[j]);
        }
        assert forall|j: int| 0 <= j < 24 && j != 16 implies crate::round_trip::apart(l[16], #[trigger] l[j]) by {
            crate::round_trip::lemma_apart(l[16], l[j]);
        }
        assert forall|j: int| 0 <= j < 24 && j != 17 implies crate::round_trip::apart(l[17], #[trigger] l[j]) by {
            crate::round_trip::lemma_apart(l[17], l[j]);
        }
        assert forall|j: int| 0 <= j < 24 && j != 18 implies crate::round_trip::apart(l[18], #[trigger] l[j]) by {
            crate::round_trip::lemma_apart(l[18], l[j]);
        }
        assert forall|j: int| 0 <= j < 24 && j != 19 implies crate::round_trip::apart(l[19], #[trigger] l[j]) by {
            crate::round_trip::lemma_apart(l[19], l[j]);
        }
        assert forall|j: int| 0 <= j < 24 && j != 20 implies crate::round_trip::apart(l[20], #[trigger] l[j]) by {
            crate::round_trip::lemma_apart(l[20], l[j]);
        }
        assert forall|j: int| 0 <= j < 24 && j != 21 implies crate::round_trip::apart(l[21], #[trigger] l[j]) by {
            crate::round_trip::lemma_apart(l[21], l[j]);
        }
        assert forall|j: int| 0 <= j < 24 && j != 22 implies crate::round_trip::apart(l[22], #[trigger] l[j]) by {
            crate::round_trip::lemma_apart(l[22], l[j]);
        }
        assert forall|j: int| 0 <= j < 24 && j != 23 implies crate::round_trip::apart(l[23], #[trigger] l[j]) by {
            crate::round_trip::lemma_apart(l[23], l[j]);
        }
    }

    /// Writing the message and parsing the text again gives back its
    /// fields, slot by slot, wherever each field carries a tag that its rule
    /// reads back and reads back as written.
    #[verifier::rlimit(100)]
    #[verifier::spinoff_prover]
    pub proof fn lemma_round_trip(m: MT103)
        requires
            crate::round_trip::accepted_slots(Self::body_layout().header, m.slots().0),
            crate::round_trip::writable_fields(m.fields_in_order()),
            m.fields_in_order().len() <= usize::MAX,
        ensures
            forall|r: Result<MT103, ParseError>|
                Self::taken(mt_text(m.fields_in_order()), r) ==> (r matches Ok(x) && x.slots() == m.slots()),
    {
        let l = Self::body_layout();
        let s = m.slots().0;
        let w: Seq<int> = seq![0int, 21int, 1int, 22int, 14int, 2int, 15int, 16int, 3int, 4int, 5int, 6int, 7int, 8int, 9int, 10int, 11int, 12int, 13int, 23int, 17int, 18int, 19int, 20int];
        let v: Seq<int> = seq![0int, 2int, 5int, 8int, 9int, 10int, 11int, 12int, 13int, 14int, 15int, 16int, 17int, 18int, 4int, 6int, 7int, 20int, 21int, 22int, 23int, 1int, 3int, 19int];
        assert(crate::round_trip::is_order(w, v, s.len() as int));
        let ws = crate::round_trip::written(s, w);
        assert(ws =~= seq![seq![m.field_20@], many_slot(m.field_13c), seq![m.field_23b@], many_slot(m.field_23e), opt_slot(m.field_26t), seq![m.field_32a@], opt_slot(m.field_33b), opt_slot(m.field_36), seq![m.field_50@], opt_slot(m.field_51a), opt_slot(m.field_52), opt_slot(m.field_53), opt_slot(m.field_54), opt_slot(m.field_55), opt_slot(m.field_56), opt_slot(m.field_57), seq![m.field_59@], opt_slot(m.field_70), seq![m.field_71a@], many_slot(m.field_71f), opt_slot(m.field_71g), opt_slot(m.field_72), opt_slot(m.field_77b), opt_slot(m.field_77t)]);
        reveal_with_fuel(crate::round_trip::flat, 25);
        assert(crate::round_trip::flat(ws) =~= m.fields_in_order());
        Self::lemma_rules_apart();
        assert forall|i: int| 0 <= i < l.header.len() implies slot_fits(#[trigger] l.header[i], s[i]) by {}
        assert(slots_fit(l.header, s));
        crate::round_trip::lemma_separate_written_round_trip(l, s, w, v);
        assert(m.slots() == (s, Seq::<Seq<Seq<FieldView>>>::empty(), Seq::<Seq<FieldView>>::empty()));
    }
}

impl MT103 {
    /// A priority payment (bank operation code SPRI) that names an
    /// intermediary (field 56) is not STP compliant.
    pub proof fn lemma_stp_priority_without_intermediary(m: MT103)
        requires
            m.field_23b.value@ == "SPRI"@,
            m.field_56 is Some,
        ensures
            !m.stp_compliant(),
    {
    }

    /// A priority payment (SPRI) with an instruction code in field 23E other
    /// than SDVA, TELB, PHOB and INTC is not STP compliant.
    pub proof fn lemma_stp_priority_instruction_codes(m: MT103, i: int)
        requires
            m.field_23b.value@ == "SPRI"@,
            m.field_23e matches Some(v) && 0 <= i < v.len() && {
                let c = instruction_code(v@[i].value@);
                c != "SDVA"@ && c != "TELB"@ && c != "PHOB"@ && c != "INTC"@
            },
        ensures
            !m.stp_compliant(),
    {
        let v = m.field_23e->0;
        let c = instruction_code(v@[i].value@);
        assert(!seq!["SDVA"@, "TELB"@, "PHOB"@, "INTC"@].contains(c)) by {
            if seq!["SDVA"@, "TELB"@, "PHOB"@, "INTC"@].contains(c) {
                let k = choose|k: int| 0 <= k < 4 && seq!["SDVA"@, "TELB"@, "PHOB"@, "INTC"@][k] == c;
            }
        }
    }

    /// A standard or single payment (SSTD, SPAY) with any instruction code
    /// in field 23E is not STP compliant.
    pub proof fn lemma_stp_standard_without_instructions(m: MT103)
        requires
            m.field_23b.value@ == "SSTD"@ || m.field_23b.value@ == "SPAY"@,
            m.field_23e is Some,
        ensures
            !m.stp_compliant(),
    {
        reveal_strlit("SPRI");
        reveal_strlit("SSTD");
        reveal_strlit("SPAY");
        assert("SSTD"@[1] != "SPRI"@[1]);
        assert("SPAY"@[2] != "SPRI"@[2]);
        assert("SSTD"@ != "SPRI"@);
        assert("SPAY"@ != "SPRI"@);
    }

    /// A payment whose bank operation code is none of SPRI, SSTD and SPAY
    /// is STP compliant, whatever else it carries.
    pub proof fn lemma_stp_other_codes(m: MT103)
        requires
            m.field_23b.value@ != "SPRI"@,
            m.field_23b.value@ != "SSTD"@,
            m.field_23b.value@ != "SPAY"@,
        ensures
            m.stp_compliant(),
    {
    }

    /// A priority payment (SPRI) without intermediary and without
    /// instruction codes, and a standard or single payment (SSTD, SPAY)
    /// without instruction codes, intermediary or not, are STP compliant.
    pub proof fn lemma_stp_plain_payments(m: MT103)
        requires
            m.field_23e is None,
            m.field_23b.value@ == "SPRI"@ ==> m.field_56 is None,
        ensures
            m.stp_compliant(),
    {
    }
}

impl MT103 {
    /// Field 72 holding `/REJT/` anywhere makes a reject.
    pub proof fn lemma_carries_reject_code_rejt(m: MT103, i: int)
        requires
            m.field_72 matches Some(x) && 0 <= i && i + "/REJT/"@.len() <= x.value@.len() && x.value@.subrange(
                i,
                i + "/REJT/"@.len(),
            ) == "/REJT/"@,
        ensures
            m.carries_reject_code(),
    {
        crate::messages::narrative::lemma_mentions_at(m.field_72, "/REJT/"@, i);
    }

    /// Field 72 absent, or holding none of `/REJT/`, does not make a reject.
    pub proof fn lemma_carries_reject_code_absent(m: MT103)
        requires
            m.field_72 matches Some(x) ==> forall|i: int|
                0 <= i && i + "/REJT/"@.len() <= x.value@.len() ==> #[trigger] x.value@.subrange(i, i + "/REJT/"@.len()) != "/REJT/"@,
        ensures
            !m.carries_reject_code(),
    {
        crate::messages::narrative::lemma_mentions_nowhere(m.field_72, "/REJT/"@);
    }
}

impl MT103 {
    /// Field 72 holding `/RETN/` anywhere makes a return.
    pub proof fn lemma_carries_return_code_retn(m: MT103, i: int)
        requires
            m.field_72 matches Some(x) && 0 <= i && i + "/RETN/"@.len() <= x.value@.len() && x.value@.subrange(
                i,
                i + "/RETN/"@.len(),
            ) == "/RETN/"@,
        ensures
            m.carries_return_code(),
    {
        crate::messages::narrative::lemma_mentions_at(m.field_72, "/RETN/"@, i);
    }

    /// Field 72 absent, or holding none of `/RETN/`, does not make a return.
    pub proof fn lemma_carries_return_code_absent(m: MT103)
        requires
            m.field_72 matches Some(x) ==> forall|i: int|
                0 <= i && i + "/RETN/"@.len() <= x.value@.len() ==> #[trigger] x.value@.subrange(i, i + "/RETN/"@.len()) != "/RETN/"@,
        ensures
            !m.carries_return_code(),
    {
        crate::messages::narrative::lemma_mentions_nowhere(m.field_72, "/RETN/"@);
    }
}

impl MT103 {
    /// A transaction reference (field 20) beginning with `REJT` marks the
    /// payment as a reject, whatever field 72 holds.
    pub proof fn lemma_reference_marks_reject(m: MT103)
        requires
            "REJT"@.len() <= m.field_20.value@.len(),
            m.field_20.value@.subrange(0, "REJT"@.len() as int) == "REJT"@,
        ensures
            m.rejected(),
    {
    }

    /// A transaction reference (field 20) beginning with `RETN` marks the
    /// payment as a return, whatever field 72 holds.
    pub proof fn lemma_reference_marks_return(m: MT103)
        requires
            "RETN"@.len() <= m.field_20.value@.len(),
            m.field_20.value@.subrange(0, "RETN"@.len() as int) == "RETN"@,
        ensures
            m.returned(),
    {
    }

    /// A reject code in field 72 marks the payment as a reject, and a
    /// return code there marks it as a return.
    pub proof fn lemma_narrative_marks(m: MT103)
        ensures
            m.carries_reject_code() ==> m.rejected(),
            m.carries_return_code() ==> m.returned(),
    {
    }

    /// A customer transfer is never a cover message.
    pub proof fn lemma_never_cover(m: MT103)
        ensures
            !m.cover(),
    {
    }
}

} // verus!

//! MT910: Confirmation of Credit
//!
//! Used to confirm that a credit entry has been posted to an account.

use vstd::prelude::*;
use crate::errors::ParseError;
use crate::message_parser::{
    error_is, item_views, layout_fits, layout_outcome, many_slot, opt_slot, parse_layout,
    rule_views, slot_fits, slot_views, slots_fit, take_many, take_one, take_opt, FieldRule, FieldView,
    LayoutView, MessageLayout, Parsed, ParsedView, RawField, RuleView,
};
use crate::parsing_utils::{
    block4_of, extract_block4, mt_text, pair_views, push_field, push_optional, push_repeated,
    render_mt,
};
use crate::text::str_views;
use crate::traits::SwiftMessageBody;

verus! {

/// The validation rules of the message, as JSONLogic.
pub const VALIDATION_RULES: &'static str = r#"{"rules": [{"id": "BASIC", "description": "Basic validation", "condition": true}]}"#;

/// The network validation rules of the message, as JSONLogic.
pub const NETWORK_RULES: &'static str = r#"{
  "rules": [
    {
      "id": "C1",
      "description": "Either field 50a or field 52a must be present",
      "condition": {
        "or": [
          {"exists": ["fields", "50"]},
          {"exists": ["fields", "52"]}
        ]
      }
    }
  ]
}"#;

/// MT910: Confirmation of Credit
#[derive(Debug, Clone, PartialEq)]
pub struct MT910 {
    pub field_20: RawField,
    pub field_21: RawField,
    pub field_25: RawField,
    pub field_13d: Option<RawField>,
    pub field_32a: RawField,
    pub field_50: Option<RawField>,
    pub field_52: Option<RawField>,
    pub field_56: Option<RawField>,
    pub field_72: Option<RawField>,
}

impl MT910 {
    /// The layout of the message body.
    pub open spec fn body_layout() -> LayoutView {
        LayoutView {
            header: seq![
                RuleView::Mandatory("20"@),
                RuleView::Mandatory("21"@),
                RuleView::Mandatory("25"@),
                RuleView::Mandatory("32A"@),
                RuleView::Optional("13D"@),
                RuleView::OptionalOption("50"@, seq!["A"@, "F"@, "K"@]),
                RuleView::OptionalOption("52"@, seq!["A"@, "D"@]),
                RuleView::OptionalOption("56"@, seq!["A"@, "C"@, "D"@]),
                RuleView::Optional("72"@),
            ],
            item_start: ""@,
            items: Seq::empty(),
            trailer: Seq::empty(),
            complete: true,
        }
    }

    /// The fields of the message as its layout took them.
    pub open spec fn slots(&self) -> ParsedView {
        (
            seq![
                seq![self.field_20@],
                seq![self.field_21@],
                seq![self.field_25@],
                seq![self.field_32a@],
                opt_slot(self.field_13d),
                opt_slot(self.field_50),
                opt_slot(self.field_52),
                opt_slot(self.field_56),
                opt_slot(self.field_72),
            ],
            Seq::empty(),
            Seq::empty(),
        )
    }

    /// The fields of the message in writing order.
    pub open spec fn fields_in_order(&self) -> Seq<FieldView> {
        seq![self.field_20@]
            + seq![self.field_21@]
            + seq![self.field_25@]
            + opt_slot(self.field_13d)
            + seq![self.field_32a@]
            + opt_slot(self.field_50)
            + opt_slot(self.field_52)
            + opt_slot(self.field_56)
            + opt_slot(self.field_72)
    }

    /// The layout of the message body.
    #[verifier::spinoff_prover]
    fn layout_rules() -> (l: MessageLayout)
        ensures
            l@ == Self::body_layout(),
    {
        let l = MessageLayout {
            header: vec![
                FieldRule::Mandatory("20"),
                FieldRule::Mandatory("21"),
                FieldRule::Mandatory("25"),
                FieldRule::Mandatory("32A"),
                FieldRule::Optional("13D"),
                FieldRule::OptionalOption("50", vec!["A", "F", "K"]),
                FieldRule::OptionalOption("52", vec!["A", "D"]),
                FieldRule::OptionalOption("56", vec!["A", "C", "D"]),
                FieldRule::Optional("72"),
            ],
            item_start: "",
            items: Vec::new(),
            trailer: Vec::new(),
            complete: true,
        };
        assert(l@.header =~~= Self::body_layout().header);
        assert(l@.trailer =~~= Self::body_layout().trailer);
        assert(l@.items =~~= Self::body_layout().items);
        l
    }

    /// The message built from the fields its layout took.
    #[verifier::spinoff_prover]
    #[verifier::rlimit(80)]
    fn from_parsed(p: Parsed) -> (m: MT910)
        requires
            layout_fits(Self::body_layout(), p@),
            p@.1.len() == 0,
        ensures
            m.slots() == p@,
    {
        let ghost pv = p@;
        let ghost all = pv.0;
        let ghost tail = pv.2;
        let Parsed { header, items, trailer } = p;
        let mut slots = header;
        assert(slot_views(slots@) =~= all.take(slots.len() as int));
        assert(slot_fits(Self::body_layout().header[0], all[0]));
        assert(slot_fits(Self::body_layout().header[1], all[1]));
        assert(slot_fits(Self::body_layout().header[2], all[2]));
        assert(slot_fits(Self::body_layout().header[3], all[3]));
        assert(slot_fits(Self::body_layout().header[4], all[4]));
        assert(slot_fits(Self::body_layout().header[5], all[5]));
        assert(slot_fits(Self::body_layout().header[6], all[6]));
        assert(slot_fits(Self::body_layout().header[7], all[7]));
        assert(slot_fits(Self::body_layout().header[8], all[8]));
        let field_72 = take_opt(&mut slots, Ghost(all));
        let field_56 = take_opt(&mut slots, Ghost(all));
        let field_52 = take_opt(&mut slots, Ghost(all));
        let field_50 = take_opt(&mut slots, Ghost(all));
        let field_13d = take_opt(&mut slots, Ghost(all));
        let field_32a = take_one(&mut slots, Ghost(all));
        let field_25 = take_one(&mut slots, Ghost(all));
        let field_21 = take_one(&mut slots, Ghost(all));
        let field_20 = take_one(&mut slots, Ghost(all));
        let mut tslots = trailer;
        assert(slot_views(tslots@) =~= tail.take(tslots.len() as int));
        let m = MT910 { field_20, field_21, field_25, field_13d, field_32a, field_50, field_52, field_56, field_72 };
        assert(m.slots().0 =~= pv.0);
        assert(m.slots().1 =~= pv.1);
        assert(m.slots().2 =~= pv.2);
        m
    }

    /// What parsing `block4` by the layout gives: the message with the
    /// fields each rule took, or the error that stands for the failure.
    pub open spec fn taken(block4: Seq<char>, r: Result<MT910, ParseError>) -> bool {
        match layout_outcome(block4, Self::body_layout()) {
            Ok(p) => r matches Ok(m) && m.slots() == p,
            Err(e) => r matches Err(pe) && error_is(pe, e),
        }
    }

    /// Parse message from Block 4 content
    pub fn parse_from_block4(block4: &str) -> (r: Result<MT910, ParseError>)
        ensures
            Self::taken(block4@, r),
    {
        let layout = Self::layout_rules();
        match parse_layout(block4, "910", &layout) {
            Ok(p) => Ok(Self::from_parsed(p)),
            Err(e) => Err(e),
        }
    }

    /// The fields of the message as (tag, content) pairs, in writing order.
    pub fn to_ordered_fields(&self) -> (r: Vec<(String, String)>)
        ensures
            pair_views(r@) == self.fields_in_order(),
    {
        let mut v: Vec<(String, String)> = Vec::new();
        push_field(&mut v, &self.field_20);
        assert(pair_views(v@) =~= seq![self.field_20@]);
        push_field(&mut v, &self.field_21);
        push_field(&mut v, &self.field_25);
        push_optional(&mut v, &self.field_13d);
        push_field(&mut v, &self.field_32a);
        push_optional(&mut v, &self.field_50);
        push_optional(&mut v, &self.field_52);
        push_optional(&mut v, &self.field_56);
        push_optional(&mut v, &self.field_72);
        v
    }

    /// Convert to SWIFT MT text format
    pub fn to_mt_string(&self) -> (r: String)
        ensures
            r@ == mt_text(self.fields_in_order()),
    {
        render_mt(&self.to_ordered_fields())
    }

    /// Validation rules for the message
    pub fn validate() -> (r: &'static str)
        ensures
            r@ == VALIDATION_RULES@,
    {
        VALIDATION_RULES
    }

    /// Parse from SWIFT MT text format; either field 50 or field 52 must be
    /// present.
    pub fn parse(input: &str) -> (r: Result<MT910, ParseError>)
        ensures
            match block4_of(input@) {
                Some(b) => match layout_outcome(b, Self::body_layout()) {
                    Ok(p) => if p.0[5].len() == 0 && p.0[6].len() == 0 {
                        r matches Err(ParseError::InvalidFormat { message }) && message@
                            == "MT910: Either field 50 (Ordering Customer) or field 52 (Ordering Institution) must be present"@
                    } else {
                        r matches Ok(m) && m.slots() == p
                    },
                    Err(e) => r matches Err(pe) && error_is(pe, e),
                },
                None => r matches Err(ParseError::InvalidFormat { message }) && message@
                    == "Block 4 not found"@,
            },
    {
        let block4 = match extract_block4(input) {
            Ok(b) => b,
            Err(e) => return Err(e),
        };
        let message = match Self::parse_from_block4(block4.as_str()) {
            Ok(m) => m,
            Err(e) => return Err(e),
        };
        match message.validate_c1() {
            Ok(()) => Ok(message),
            Err(e) => Err(e),
        }
    }

    /// C1: either field 50 or field 52 is present.
    fn validate_c1(&self) -> (r: Result<(), ParseError>)
        ensures
            (self.field_50 is None && self.field_52 is None) ==> (r matches Err(
                ParseError::InvalidFormat { message },
            ) && message@
                == "MT910: Either field 50 (Ordering Customer) or field 52 (Ordering Institution) must be present"@),
            !(self.field_50 is None && self.field_52 is None) ==> r is Ok,
    {
        if self.field_50.is_none() && self.field_52.is_none() {
            return Err(
                ParseError::InvalidFormat {
                    message: "MT910: Either field 50 (Ordering Customer) or field 52 (Ordering Institution) must be present".to_string(),
                },
            );
        }
        Ok(())
    }

    /// The network validation rules of the message, as JSONLogic.
    pub fn validation_rules() -> (r: &'static str)
        ensures
            r@ == NETWORK_RULES@,
    {
        NETWORK_RULES
    }
}

impl SwiftMessageBody for MT910 {
    open spec fn type_code() -> Seq<char> {
        "910"@
    }

    open spec fn layout() -> LayoutView {
        Self::body_layout()
    }

    open spec fn parsed(&self) -> ParsedView {
        self.slots()
    }

    open spec fn ordered(&self) -> Seq<FieldView> {
        self.fields_in_order()
    }

    open spec fn parse_spec(block4: Seq<char>, r: Result<Self, ParseError>) -> bool {
        Self::taken(block4, r)
    }

    open spec fn required_tags() -> Seq<Seq<char>> {
        seq![
            "20"@,
            "21"@,
            "25"@,
            "32A"@,
        ]
    }

    open spec fn optional_tags() -> Seq<Seq<char>> {
        seq![
            "13D"@,
            "50"@,
            "52"@,
            "56"@,
            "72"@,
        ]
    }

    open spec fn rejected(&self) -> bool {
        false
    }

    open spec fn returned(&self) -> bool {
        false
    }

    open spec fn cover(&self) -> bool {
        false
    }

    open spec fn stp(&self) -> bool {
        false
    }

    fn message_type() -> (r: &'static str) {
        "910"
    }

    fn parse_from_block4(block4: &str) -> (r: Result<Self, ParseError>) {
        MT910::parse_from_block4(block4)
    }

    fn to_ordered_fields(&self) -> (r: Vec<(String, String)>) {
        MT910::to_ordered_fields(self)
    }

    fn to_mt_string(&self) -> (r: String) {
        MT910::to_mt_string(self)
    }

    fn required_fields() -> (r: Vec<&'static str>) {
        let r = vec![
            "20",
            "21",
            "25",
            "32A",
        ];
        assert(str_views(r@) =~= Self::required_tags());
        r
    }

    fn optional_fields() -> (r: Vec<&'static str>) {
        let r = vec![
            "13D",
            "50",
            "52",
            "56",
            "72",
        ];
        assert(str_views(r@) =~= Self::optional_tags());
        r
    }

    fn has_reject_codes(&self) -> (b: bool) {
        false
    }

    fn has_return_codes(&self) -> (b: bool) {
        false
    }

    fn is_cover_message(&self) -> (b: bool) {
        false
    }

    fn is_stp_message(&self) -> (b: bool) {
        false
    }
}

impl MT910 {
    /// The rules of the layout stand apart.
    #[verifier::rlimit(100)]
    #[verifier::spinoff_prover]
    proof fn lemma_rules_apart()
        ensures
            crate::round_trip::separate_rules(Self::body_layout().header),
    {
        reveal_strlit("13D");
        reveal_strlit("20");
        reveal_strlit("21");
        reveal_strlit("25");
        reveal_strlit("32A");
        reveal_strlit("50");
        reveal_strlit("52");
        reveal_strlit("56");
        reveal_strlit("72");
        let l = Self::body_layout().header;
        let tags = seq!["20"@, "21"@, "25"@, "32A"@, "13D"@, "50"@, "52"@, "56"@, "72"@];
        assert forall|i: int| 0 <= i < l.len() implies crate::round_trip::rule_tag(#[trigger] l[i]) == tags[i] by {}
        assert forall|j: int| 0 <= j < 9 && j != 0 implies crate::round_trip::apart(l[0], #[trigger] l[j]) by {
            crate::round_trip::lemma_apart(l[0], l[j]);
        }
        assert forall|j: int| 0 <= j < 9 && j != 1 implies crate::round_trip::apart(l[1], #[trigger] l[j]) by {
            crate::round_trip::lemma_apart(l[1], l[j]);
        }
        assert forall|j: int| 0 <= j < 9 && j != 2 implies crate::round_trip::apart(l[2], #[trigger] l[j]) by {
            crate::round_trip::lemma_apart(l[2], l[j]);
        }
        assert forall|j: int| 0 <= j < 9 && j != 3 implies crate::round_trip::apart(l[3], #[trigger] l[j]) by {
            crate::round_trip::lemma_apart(l[3], l[j]);
        }
        assert forall|j: int| 0 <= j < 9 && j != 4 implies crate::round_trip::apart(l[4], #[trigger] l[j]) by {
            crate::round_trip::lemma_apart(l[4], l[j]);
        }
        assert forall|j: int| 0 <= j < 9 && j != 5 implies crate::round_trip::apart(l[5], #[trigger] l[j]) by {
            crate::round_trip::lemma_apart(l[5], l[j]);
        }
        assert forall|j: int| 0 <= j < 9 && j != 6 implies crate::round_trip::apart(l[6], #[trigger] l[j]) by {
            crate::round_trip::lemma_apart(l[6], l[j]);
        }
        assert forall|j: int| 0 <= j < 9 && j != 7 implies crate::round_trip::apart(l[7], #[trigger] l[j]) by {
            crate::round_trip::lemma_apart(l[7], l[j]);
        }
        assert forall|j: int| 0 <= j < 9 && j != 8 implies crate::round_trip::apart(l[8], #[trigger] l[j]) by {
            crate::round_trip::lemma_apart(l[8], l[j]);
        }
    }

    /// Writing the message and parsing the text again gives back its
    /// fields, slot by slot, wherever each field carries a tag that its rule
    /// reads back and reads back as written.
    #[verifier::rlimit(100)]
    #[verifier::spinoff_prover]
    pub proof fn lemma_round_trip(m: MT910)
        requires
            crate::round_trip::accepted_slots(Self::body_layout().header, m.slots().0),
            crate::round_trip::writable_fields(m.fields_in_order()),
        ensures
            forall|r: Result<MT910, ParseError>|
                Self::taken(mt_text(m.fields_in_order()), r) ==> (r matches Ok(x) && x.slots() == m.slots()),
    {
        let l = Self::body_layout();
        let s = m.slots().0;
        let w: Seq<int> = seq![0int, 1int, 2int, 4int, 3int, 5int, 6int, 7int, 8int];
        let v: Seq<int> = seq![0int, 1int, 2int, 4int, 3int, 5int, 6int, 7int, 8int];
        assert(crate::round_trip::is_order(w, v, s.len() as int));
        let ws = crate::round_trip::written(s, w);
        assert(ws =~= seq![seq![m.field_20@], seq![m.field_21@], seq![m.field_25@], opt_slot(m.field_13d), seq![m.field_32a@], opt_slot(m.field_50), opt_slot(m.field_52), opt_slot(m.field_56), opt_slot(m.field_72)]);
        reveal_with_fuel(crate::round_trip::flat, 10);
        assert(crate::round_trip::flat(ws) =~= m.fields_in_order());
        Self::lemma_rules_apart();
        assert forall|i: int| 0 <= i < l.header.len() implies slot_fits(#[trigger] l.header[i], s[i]) by {}
        assert(slots_fit(l.header, s));
        crate::round_trip::lemma_separate_written_round_trip(l, s, w, v);
        assert(m.slots() == (s, Seq::<Seq<Seq<FieldView>>>::empty(), Seq::<Seq<FieldView>>::empty()));
    }
}

} // verus!

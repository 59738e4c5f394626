//! MT950: Statement Message

use vstd::prelude::*;
use crate::errors::ParseError;
use crate::message_parser::{
    error_is, item_views, layout_fits, layout_outcome, many_slot, opt_slot, parse_layout,
    rule_views, slot_fits, slot_views, slots_fit, take_many, take_one, take_opt, FieldRule, FieldView,
    LayoutView, MessageLayout, Parsed, ParsedView, RawField, RuleView,
};
use crate::parsing_utils::{
    block4_of, extract_block4, mt_text, pair_views, push_field, push_optional, push_repeated,
    render_mt,
};
use crate::text::str_views;
use crate::traits::SwiftMessageBody;

verus! {

/// MT950: Statement Message
#[derive(Debug, Clone, PartialEq)]
pub struct MT950 {
    pub field_20: RawField,
    pub field_25: RawField,
    pub field_28c: RawField,
    pub field_60: RawField,
    pub field_61: Option<Vec<RawField>>,
    pub field_62: RawField,
    pub field_64: Option<RawField>,
}

impl MT950 {
    /// The layout of the message body.
    pub open spec fn body_layout() -> LayoutView {
        LayoutView {
            header: seq![
                RuleView::Mandatory("20"@),
                RuleView::Mandatory("25"@),
                RuleView::Mandatory("28C"@),
                RuleView::MandatoryOption("60"@, seq![""@, "F"@, "M"@]),
                RuleView::Repeated("61"@),
                RuleView::MandatoryOption("62"@, seq![""@, "F"@, "M"@]),
                RuleView::Optional("64"@),
            ],
            item_start: ""@,
            items: Seq::empty(),
            trailer: Seq::empty(),
            complete: false,
        }
    }

    /// The fields of the message as its layout took them.
    pub open spec fn slots(&self) -> ParsedView {
        (
            seq![
                seq![self.field_20@],
                seq![self.field_25@],
                seq![self.field_28c@],
                seq![self.field_60@],
                many_slot(self.field_61),
                seq![self.field_62@],
                opt_slot(self.field_64),
            ],
            Seq::empty(),
            Seq::empty(),
        )
    }

    /// The fields of the message in writing order.
    pub open spec fn fields_in_order(&self) -> Seq<FieldView> {
        seq![self.field_20@]
            + seq![self.field_25@]
            + seq![self.field_28c@]
            + seq![self.field_60@]
            + many_slot(self.field_61)
            + seq![self.field_62@]
            + opt_slot(self.field_64)
    }

    /// The layout of the message body.
    #[verifier::spinoff_prover]
    fn layout_rules() -> (l: MessageLayout)
        ensures
            l@ == Self::body_layout(),
    {
        let l = MessageLayout {
            header: vec![
                FieldRule::Mandatory("20"),
                FieldRule::Mandatory("25"),
                FieldRule::Mandatory("28C"),
                FieldRule::MandatoryOption("60", vec!["", "F", "M"]),
                FieldRule::Repeated("61"),
                FieldRule::MandatoryOption("62", vec!["", "F", "M"]),
                FieldRule::Optional("64"),
            ],
            item_start: "",
            items: Vec::new(),
            trailer: Vec::new(),
            complete: false,
        };
        assert(l@.header =~~= Self::body_layout().header);
        assert(l@.trailer =~~= Self::body_layout().trailer);
        assert(l@.items =~~= Self::body_layout().items);
        l
    }

    /// The message built from the fields its layout took.
    #[verifier::spinoff_prover]
    #[verifier::rlimit(80)]
    fn from_parsed(p: Parsed) -> (m: MT950)
        requires
            layout_fits(Self::body_layout(), p@),
            p@.1.len() == 0,
        ensures
            m.slots() == p@,
    {
        let ghost pv = p@;
        let ghost all = pv.0;
        let ghost tail = pv.2;
        let Parsed { header, items, trailer } = p;
        let mut slots = header;
        assert(slot_views(slots@) =~= all.take(slots.len() as int));
        assert(slot_fits(Self::body_layout().header[0], all[0]));
        assert(slot_fits(Self::body_layout().header[1], all[1]));
        assert(slot_fits(Self::body_layout().header[2], all[2]));
        assert(slot_fits(Self::body_layout().header[3], all[3]));
        assert(slot_fits(Self::body_layout().header[4], all[4]));
        assert(slot_fits(Self::body_layout().header[5], all[5]));
        assert(slot_fits(Self::body_layout().header[6], all[6]));
        let field_64 = take_opt(&mut slots, Ghost(all));
        let field_62 = take_one(&mut slots, Ghost(all));
        let field_61 = take_many(&mut slots, Ghost(all));
        let field_60 = take_one(&mut slots, Ghost(all));
        let field_28c = take_one(&mut slots, Ghost(all));
        let field_25 = take_one(&mut slots, Ghost(all));
        let field_20 = take_one(&mut slots, Ghost(all));
        let mut tslots = trailer;
        assert(slot_views(tslots@) =~= tail.take(tslots.len() as int));
        let m = MT950 { field_20, field_25, field_28c, field_60, field_61, field_62, field_64 };
        assert(m.slots().0 =~= pv.0);
        assert(m.slots().1 =~= pv.1);
        assert(m.slots().2 =~= pv.2);
        m
    }

    /// What parsing `block4` by the layout gives: the message with the
    /// fields each rule took, or the error that stands for the failure.
    pub open spec fn taken(block4: Seq<char>, r: Result<MT950, ParseError>) -> bool {
        match layout_outcome(block4, Self::body_layout()) {
            Ok(p) => r matches Ok(m) && m.slots() == p,
            Err(e) => if e == crate::message_parser::ErrView::Missing("60"@) {
                r matches Err(ParseError::InvalidFormat { message }) && message@
                    == "MT950: Missing required field 60 (opening balance)"@
            } else if e == crate::message_parser::ErrView::Missing("62"@) {
                r matches Err(ParseError::InvalidFormat { message }) && message@
                    == "MT950: Missing required field 62 (closing balance)"@
            } else {
                r matches Err(pe) && error_is(pe, e)
            },
        }
    }

    /// Parse message from Block 4 content
    pub fn parse_from_block4(block4: &str) -> (r: Result<MT950, ParseError>)
        ensures
            Self::taken(block4@, r),
    {
        let layout = Self::layout_rules();
        match parse_layout(block4, "950", &layout) {
            Ok(p) => Ok(Self::from_parsed(p)),
            Err(e) => {
                let missing = match &e {
                    ParseError::MissingRequiredField { field_tag } => {
                        let t = crate::text::string_chars(field_tag);
                        if crate::text::chars_eq(&t, &crate::text::to_chars("60")) {
                            1u8
                        } else if crate::text::chars_eq(&t, &crate::text::to_chars("62")) {
                            2u8
                        } else {
                            0u8
                        }
                    },
                    _ => 0u8,
                };
                if missing == 1 {
                    Err(ParseError::InvalidFormat {
                        message: "MT950: Missing required field 60 (opening balance)".to_string(),
                    })
                } else if missing == 2 {
                    Err(ParseError::InvalidFormat {
                        message: "MT950: Missing required field 62 (closing balance)".to_string(),
                    })
                } else {
                    Err(e)
                }
            },
        }
    }

    /// The fields of the message as (tag, content) pairs, in writing order.
    pub fn to_ordered_fields(&self) -> (r: Vec<(String, String)>)
        ensures
            pair_views(r@) == self.fields_in_order(),
    {
        let mut v: Vec<(String, String)> = Vec::new();
        push_field(&mut v, &self.field_20);
        assert(pair_views(v@) =~= seq![self.field_20@]);
        push_field(&mut v, &self.field_25);
        push_field(&mut v, &self.field_28c);
        push_field(&mut v, &self.field_60);
        push_repeated(&mut v, &self.field_61);
        push_field(&mut v, &self.field_62);
        push_optional(&mut v, &self.field_64);
        v
    }

    /// Convert to SWIFT MT text format
    pub fn to_mt_string(&self) -> (r: String)
        ensures
            r@ == mt_text(self.fields_in_order()),
    {
        render_mt(&self.to_ordered_fields())
    }
}

impl SwiftMessageBody for MT950 {
    open spec fn type_code() -> Seq<char> {
        "950"@
    }

    open spec fn layout() -> LayoutView {
        Self::body_layout()
    }

    open spec fn parsed(&self) -> ParsedView {
        self.slots()
    }

    open spec fn ordered(&self) -> Seq<FieldView> {
        self.fields_in_order()
    }

    open spec fn parse_spec(block4: Seq<char>, r: Result<Self, ParseError>) -> bool {
        Self::taken(block4, r)
    }

    open spec fn required_tags() -> Seq<Seq<char>> {
        seq![
            "20"@,
            "25"@,
            "28C"@,
            "60"@,
            "62"@,
        ]
    }

    open spec fn optional_tags() -> Seq<Seq<char>> {
        seq![
            "61"@,
            "64"@,
        ]
    }

    open spec fn rejected(&self) -> bool {
        false
    }

    open spec fn returned(&self) -> bool {
        false
    }

    open spec fn cover(&self) -> bool {
        false
    }

    open spec fn stp(&self) -> bool {
        false
    }

    fn message_type() -> (r: &'static str) {
        "950"
    }

    fn parse_from_block4(block4: &str) -> (r: Result<Self, ParseError>) {
        MT950::parse_from_block4(block4)
    }

    fn to_ordered_fields(&self) -> (r: Vec<(String, String)>) {
        MT950::to_ordered_fields(self)
    }

    fn to_mt_string(&self) -> (r: String) {
        MT950::to_mt_string(self)
    }

    fn required_fields() -> (r: Vec<&'static str>) {
        let r = vec![
            "20",
            "25",
            "28C",
            "60",
            "62",
        ];
        assert(str_views(r@) =~= Self::required_tags());
        r
    }

    fn optional_fields() -> (r: Vec<&'static str>) {
        let r = vec![
            "61",
            "64",
        ];
        assert(str_views(r@) =~= Self::optional_tags());
        r
    }

    fn has_reject_codes(&self) -> (b: bool) {
        false
    }

    fn has_return_codes(&self) -> (b: bool) {
        false
    }

    fn is_cover_message(&self) -> (b: bool) {
        false
    }

    fn is_stp_message(&self) -> (b: bool) {
        false
    }
}

/// The message of a currency mismatch of field `f` against field 60a.
pub open spec fn c27_message(f: Seq<char>, cur: Seq<char>, base_cur: Seq<char>) -> Seq<char> {
    "Currency code mismatch: field "@ + f + " currency '"@ + cur + "' (prefix '"@
        + crate::messages::amounts::prefix2(cur) + "') must have the same first two characters as field 60a currency '"@
        + base_cur + "' (prefix '"@ + crate::messages::amounts::prefix2(base_cur) + "')"@
}

/// The text every C27 error gives as the rule.
pub open spec fn c27_expected() -> Seq<char> {
    "The first two characters of the three character currency code in fields 60a, 62a and 64 must be the same"@
}

/// The errors of rule C27: fields 62a and 64 against field 60a.
pub open spec fn mt950_rule_errors(m: MT950) -> Seq<crate::errors::ValidationErrorView> {
    let base = crate::messages::amounts::balance_currency(m.field_60.value@);
    let c62 = crate::messages::amounts::balance_currency(m.field_62.value@);
    let e62 = if crate::messages::amounts::prefix2(c62) != crate::messages::amounts::prefix2(base) {
        seq![("C27"@, "62a"@, "60a"@, c27_expected(), c27_message("62a"@, c62, base))]
    } else {
        Seq::empty()
    };
    let e64 = match m.field_64 {
        Some(f) => {
            let c64 = crate::messages::amounts::balance_currency(f.value@);
            if crate::messages::amounts::prefix2(c64) != crate::messages::amounts::prefix2(base) {
                seq![("C27"@, "64"@, "60a, 62a"@, c27_expected(), c27_message("64"@, c64, base))]
            } else {
                Seq::empty()
            }
        },
        None => Seq::empty(),
    };
    e62 + e64
}

/// The message of a currency mismatch.
fn c27_message_exec(f: &str, cur: &Vec<char>, base: &Vec<char>) -> (r: String)
    ensures
        r@ == c27_message(f@, cur@, base@),
{
    let mut m = crate::text::to_chars("Currency code mismatch: field ");
    crate::text::append_chars(&mut m, &crate::text::to_chars(f));
    crate::text::append_chars(&mut m, &crate::text::to_chars(" currency '"));
    crate::text::append_chars(&mut m, cur);
    crate::text::append_chars(&mut m, &crate::text::to_chars("' (prefix '"));
    crate::text::append_chars(&mut m, &crate::messages::amounts::prefix2_exec(cur));
    crate::text::append_chars(&mut m, &crate::text::to_chars("') must have the same first two characters as field 60a currency '"));
    crate::text::append_chars(&mut m, base);
    crate::text::append_chars(&mut m, &crate::text::to_chars("' (prefix '"));
    crate::text::append_chars(&mut m, &crate::messages::amounts::prefix2_exec(base));
    crate::text::append_chars(&mut m, &crate::text::to_chars("')"));
    crate::text::from_chars(&m)
}

impl MT950 {
    /// Network validated rule C27: the currencies of fields 62a and 64
    /// start with the same two characters as that of field 60a.
    pub fn validate_network_rules(&self, stop_on_first_error: bool) -> (r: Vec<
        crate::errors::SwiftValidationError,
    >)
        ensures
            crate::errors::error_views(r@) == mt950_rule_errors(*self),
    {
        let mut out: Vec<crate::errors::SwiftValidationError> = Vec::new();
        let base = crate::messages::amounts::balance_currency_exec(&self.field_60.value);
        let pb = crate::messages::amounts::prefix2_exec(&base);
        let c62 = crate::messages::amounts::balance_currency_exec(&self.field_62.value);
        if !crate::text::chars_eq(&crate::messages::amounts::prefix2_exec(&c62), &pb) {
            let msg = c27_message_exec("62a", &c62, &base);
            let related = vec!["60a".to_string()];
            proof {
                reveal_strlit("60a");
                reveal_strlit(", ");
                assert(crate::text::string_views(related@) =~= seq!["60a"@]);
                assert(crate::text::join(seq!["60a"@], ", "@) == "60a"@);
            }
            out.push(crate::errors::SwiftValidationError::business_error(
                "C27",
                "62a",
                &related,
                msg.as_str(),
                "The first two characters of the three character currency code in fields 60a, 62a and 64 must be the same",
            ));
        }
        let ghost before = crate::errors::error_views(out@);
        if let Some(f) = &self.field_64 {
            let c64 = crate::messages::amounts::balance_currency_exec(&f.value);
            if !crate::text::chars_eq(&crate::messages::amounts::prefix2_exec(&c64), &pb) {
                let msg = c27_message_exec("64", &c64, &base);
                let related = vec!["60a".to_string(), "62a".to_string()];
                proof {
                    reveal_strlit("60a");
                    reveal_strlit("62a");
                    reveal_strlit(", ");
                    reveal_strlit("60a, 62a");
                    let sv = crate::text::string_views(related@);
                    assert(sv =~= seq!["60a"@, "62a"@]);
                    assert(sv.drop_last() =~= seq!["60a"@]);
                    assert(crate::text::join(sv.drop_last(), ", "@) == "60a"@);
                    assert(crate::text::join(sv, ", "@) == "60a"@ + ", "@ + "62a"@);
                    assert(crate::text::join(sv, ", "@) =~= "60a, 62a"@);
                }
                out.push(crate::errors::SwiftValidationError::business_error(
                    "C27",
                    "64",
                    &related,
                    msg.as_str(),
                    "The first two characters of the three character currency code in fields 60a, 62a and 64 must be the same",
                ));
            }
        }
        assert(crate::errors::error_views(out@) =~= mt950_rule_errors(*self));
        out
    }
}

impl MT950 {
    /// Writing the message and parsing the text again gives back its
    /// fields, slot by slot, wherever each field carries a tag that its rule
    /// reads back and reads back as written.
    pub proof fn lemma_round_trip(m: MT950)
        requires
            crate::round_trip::accepted_slots(Self::body_layout().header, m.slots().0),
            crate::round_trip::writable_fields(m.fields_in_order()),
            m.fields_in_order().len() <= usize::MAX,
        ensures
            forall|r: Result<MT950, ParseError>|
                Self::taken(mt_text(m.fields_in_order()), r) ==> (r matches Ok(x) && x.slots() == m.slots()),
    {
        reveal_strlit("20");
        reveal_strlit("25");
        reveal_strlit("28C");
        reveal_strlit("60");
        reveal_strlit("61");
        reveal_strlit("62");
        reveal_strlit("64");
        let l = Self::body_layout();
        let s = m.slots().0;
        reveal_with_fuel(crate::round_trip::flat, 8);
        assert(crate::round_trip::flat(s) =~= m.fields_in_order());
        let tags = seq!["20"@, "25"@, "28C"@, "60"@, "61"@, "62"@, "64"@];
        assert forall|i: int| 0 <= i < l.header.len() implies crate::round_trip::rule_tag(#[trigger] l.header[i]) == tags[i] by {}
        assert forall|i: int, j: int| 0 <= i < l.header.len() && 0 <= j < l.header.len() && i != j implies crate::round_trip::apart(#[trigger] l.header[i], #[trigger] l.header[j]) by {
            crate::round_trip::lemma_apart(l.header[i], l.header[j]);
        }
        assert(crate::round_trip::separate_rules(l.header));
        assert forall|i: int| 0 <= i < l.header.len() implies slot_fits(#[trigger] l.header[i], s[i]) by {}
        assert(slots_fit(l.header, s));
        crate::round_trip::lemma_separate_layout_round_trip(l, s);
        assert(m.slots() == (s, Seq::<Seq<Seq<FieldView>>>::empty(), Seq::<Seq<FieldView>>::empty()));
    }
}

impl MT950 {
    /// A closing balance (62a) whose currency starts with other letters
    /// than the opening balance's (60a) gives a C27 error on field 62a.
    pub proof fn lemma_closing_currency_mismatch(m: MT950)
        requires
            m.field_60.value@.len() >= 9,
            m.field_62.value@.len() >= 9,
            m.field_62.value@[7] != m.field_60.value@[7] || m.field_62.value@[8] != m.field_60.value@[8],
        ensures
            exists|k: int| 0 <= k < mt950_rule_errors(m).len() && (#[trigger] mt950_rule_errors(m)[k]).0 == "C27"@
                && mt950_rule_errors(m)[k].1 == "62a"@,
    {
        balance_letters_950(m.field_60.value@);
        balance_letters_950(m.field_62.value@);
        assert(mt950_rule_errors(m)[0].0 == "C27"@);
    }

    /// A closing available balance (64) whose currency starts with other
    /// letters than the opening balance's (60a) gives a C27 error on field
    /// 64.
    pub proof fn lemma_available_currency_mismatch(m: MT950)
        requires
            m.field_60.value@.len() >= 9,
            m.field_64 matches Some(f) && f.value@.len() >= 9 && (f.value@[7] != m.field_60.value@[7] || f.value@[8]
                != m.field_60.value@[8]),
        ensures
            exists|k: int| 0 <= k < mt950_rule_errors(m).len() && (#[trigger] mt950_rule_errors(m)[k]).0 == "C27"@
                && mt950_rule_errors(m)[k].1 == "64"@,
    {
        balance_letters_950(m.field_60.value@);
        balance_letters_950(m.field_64->0.value@);
        let k = mt950_rule_errors(m).len() - 1;
        assert(mt950_rule_errors(m)[k].1 == "64"@);
    }

    /// Balances whose currencies all start with the opening balance's
    /// letters give no error.
    pub proof fn lemma_matching_currencies(m: MT950)
        requires
            m.field_60.value@.len() >= 9,
            m.field_62.value@.len() >= 9,
            m.field_62.value@[7] == m.field_60.value@[7] && m.field_62.value@[8] == m.field_60.value@[8],
            m.field_64 matches Some(f) ==> f.value@.len() >= 9 && f.value@[7] == m.field_60.value@[7] && f.value@[8]
                == m.field_60.value@[8],
        ensures
            mt950_rule_errors(m).len() == 0,
    {
        balance_letters_950(m.field_60.value@);
        balance_letters_950(m.field_62.value@);
        if m.field_64 is Some {
            balance_letters_950(m.field_64->0.value@);
        }
    }
}

/// The two currency letters of a balance value stand after its mark and
/// date.
proof fn balance_letters_950(v: Seq<char>)
    requires
        v.len() >= 9,
    ensures
        crate::messages::amounts::prefix2(crate::messages::amounts::balance_currency(v)) == seq![v[7], v[8]],
{
    assert(crate::messages::amounts::prefix2(crate::messages::amounts::balance_currency(v)) =~= seq![v[7], v[8]]);
}

} // verus!

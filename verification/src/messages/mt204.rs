//! MT204: Financial Markets Direct Debit Message

use vstd::prelude::*;
use crate::errors::ParseError;
use crate::message_parser::{
    error_is, item_views, layout_fits, layout_outcome, many_slot, opt_slot, parse_layout,
    rule_views, slot_fits, slot_views, slots_fit, take_many, take_one, take_opt, FieldRule, FieldView,
    LayoutView, MessageLayout, Parsed, ParsedView, RawField, RuleView,
};
use crate::parsing_utils::{
    block4_of, extract_block4, mt_text, pair_views, push_field, push_optional, push_repeated,
    render_mt,
};
use crate::text::str_views;
use crate::traits::SwiftMessageBody;

verus! {

/// Individual transaction within an MT204 message
#[derive(Debug, Clone, PartialEq)]
pub struct MT204Transaction {
    pub transaction_reference: RawField,
    pub related_reference: Option<RawField>,
    pub currency_amount: RawField,
    pub senders_correspondent: Option<RawField>,
    pub sender_to_receiver: Option<RawField>,
}

impl MT204Transaction {
    /// The rules by which an item is taken.
    pub open spec fn rules() -> Seq<RuleView> {
        seq![
            RuleView::Mandatory("20"@),
            RuleView::Optional("21"@),
            RuleView::Mandatory("32B"@),
            RuleView::OptionalOption("53"@, seq!["A"@, "B"@, "D"@]),
            RuleView::Optional("72"@),
        ]
    }

    /// The fields of the item as its rules took them.
    pub open spec fn slots(&self) -> Seq<Seq<FieldView>> {
        seq![
            seq![self.transaction_reference@],
            opt_slot(self.related_reference),
            seq![self.currency_amount@],
            opt_slot(self.senders_correspondent),
            opt_slot(self.sender_to_receiver),
        ]
    }

    /// The fields of the item in writing order.
    #[verifier::opaque]
    pub open spec fn fields_in_order(&self) -> Seq<FieldView> {
        seq![self.transaction_reference@]
            + opt_slot(self.related_reference)
            + seq![self.currency_amount@]
            + opt_slot(self.senders_correspondent)
            + opt_slot(self.sender_to_receiver)
    }

    /// The rules by which an item is taken.
    fn rule_list() -> (r: Vec<FieldRule>)
        ensures
            rule_views(r@) == Self::rules(),
    {
        let r = vec![
            FieldRule::Mandatory("20"),
            FieldRule::Optional("21"),
            FieldRule::Mandatory("32B"),
            FieldRule::OptionalOption("53", vec!["A", "B", "D"]),
            FieldRule::Optional("72"),
        ];
        assert(rule_views(r@) =~~= Self::rules());
        r
    }

    /// The item built from the slots its rules took.
    fn from_slots(slots: Vec<Vec<RawField>>) -> (item: MT204Transaction)
        requires
            slots_fit(Self::rules(), slot_views(slots@)),
        ensures
            item.slots() == slot_views(slots@),
    {
        let ghost all = slot_views(slots@);
        let mut slots = slots;
        assert(slot_views(slots@) =~= all.take(slots.len() as int));
        let sender_to_receiver = take_opt(&mut slots, Ghost(all));
        let senders_correspondent = take_opt(&mut slots, Ghost(all));
        let currency_amount = take_one(&mut slots, Ghost(all));
        let related_reference = take_opt(&mut slots, Ghost(all));
        let transaction_reference = take_one(&mut slots, Ghost(all));
        let item = MT204Transaction { transaction_reference, related_reference, currency_amount, senders_correspondent, sender_to_receiver };
        assert(item.slots() =~= all);
        item
    }

    /// Items built from the slots their rules took, in order.
    #[verifier::spinoff_prover]
    fn from_items(items: Vec<Vec<Vec<RawField>>>) -> (v: Vec<MT204Transaction>)
        requires
            forall|i: int|
                0 <= i < items@.len() ==> slots_fit(Self::rules(), #[trigger] item_views(items@)[i]),
        ensures
            Self::item_slots(v@) == item_views(items@),
    {
        let ghost all = item_views(items@);
        let mut rest = items;
        let mut out: Vec<MT204Transaction> = Vec::new();
        assert(Self::item_slots(out@) + item_views(rest@) =~= all);
        while rest.len() > 0
            invariant
                Self::item_slots(out@) + item_views(rest@) == all,
                forall|i: int|
                    0 <= i < rest@.len() ==> slots_fit(Self::rules(), #[trigger] item_views(rest@)[i]),
            decreases rest.len(),
        {
            let ghost before = rest@;
            let first = rest.remove(0);
            assert(item_views(before)[0] == slot_views(first@));
            assert forall|i: int| 0 <= i < rest@.len() implies slots_fit(
                Self::rules(),
                #[trigger] item_views(rest@)[i],
            ) by {
                assert(item_views(rest@)[i] == item_views(before)[i + 1]);
            }
            let item = Self::from_slots(first);
            let ghost prev = out@;
            out.push(item);
            assert(Self::item_slots(out@) =~= Self::item_slots(prev).push(item.slots()));
            assert(item_views(before) =~= seq![item.slots()] + item_views(rest@));
            assert(Self::item_slots(out@) + item_views(rest@) =~= Self::item_slots(prev) + item_views(
                before,
            ));
        }
        assert(item_views(rest@) =~= Seq::<Seq<Seq<FieldView>>>::empty());
        assert(Self::item_slots(out@) + item_views(rest@) =~= Self::item_slots(out@));
        out
    }

    /// The slots of a list of items.
    pub open spec fn item_slots(v: Seq<MT204Transaction>) -> Seq<Seq<Seq<FieldView>>> {
        v.map_values(|t: MT204Transaction| t.slots())
    }

    /// The fields of a list of items, in writing order.
    pub open spec fn items_in_order(v: Seq<MT204Transaction>) -> Seq<FieldView>
        decreases v.len(),
    {
        if v.len() == 0 {
            Seq::empty()
        } else {
            Self::items_in_order(v.drop_last()) + v.last().fields_in_order()
        }
    }

    /// The fields of the item as (tag, content) pairs, in writing order.
    pub fn to_ordered_fields(&self) -> (r: Vec<(String, String)>)
        ensures
            pair_views(r@) == self.fields_in_order(),
    {
        proof {
            reveal(MT204Transaction::fields_in_order);
        }
        let mut v: Vec<(String, String)> = Vec::new();
        push_field(&mut v, &self.transaction_reference);
        assert(pair_views(v@) =~= seq![self.transaction_reference@]);
        push_optional(&mut v, &self.related_reference);
        push_field(&mut v, &self.currency_amount);
        push_optional(&mut v, &self.senders_correspondent);
        push_optional(&mut v, &self.sender_to_receiver);
        v
    }

    /// Adds the fields of the item, in writing order.
    fn push_ordered(&self, v: &mut Vec<(String, String)>)
        ensures
            pair_views(final(v)@) == pair_views(old(v)@) + self.fields_in_order(),
    {
        let mut w = self.to_ordered_fields();
        let ghost pv0 = pair_views(v@);
        let ghost pw = pair_views(w@);
        v.append(&mut w);
        assert(pair_views(v@) =~= pv0 + pw);
    }

    /// Adds the fields of each item, in writing order.
    #[verifier::spinoff_prover]
    #[verifier::rlimit(60)]
    fn push_items(items: &Vec<MT204Transaction>, v: &mut Vec<(String, String)>)
        ensures
            pair_views(final(v)@) == pair_views(old(v)@) + Self::items_in_order(items@),
    {
        let ghost start = pair_views(v@);
        let mut i: usize = 0;
        assert(start + Self::items_in_order(items@.take(0)) =~= start);
        while i < items.len()
            invariant
                i <= items.len(),
                pair_views(v@) == start + Self::items_in_order(items@.take(i as int)),
            decreases items.len() - i,
        {
            items[i].push_ordered(v);
            assert(items@.take(i + 1).drop_last() =~= items@.take(i as int));
            assert(start + Self::items_in_order(items@.take(i as int)) + items@[i as int].fields_in_order()
                =~= start + Self::items_in_order(items@.take(i + 1)));
            i = i + 1;
        }
        assert(items@.take(items.len() as int) =~= items@);
    }
}

/// MT204: Financial Markets Direct Debit Message
#[derive(Debug, Clone, PartialEq)]
pub struct MT204 {
    pub transaction_reference: RawField,
    pub sum_of_amounts: RawField,
    pub execution_date: RawField,
    pub account_with_institution: Option<RawField>,
    pub sender_to_receiver: Option<RawField>,
    /// Transactions (Repeatable)
    pub transactions: Vec<MT204Transaction>,
}

impl MT204 {
    /// The layout of the message body.
    pub open spec fn body_layout() -> LayoutView {
        LayoutView {
            header: seq![
                RuleView::Mandatory("19"@),
                RuleView::Mandatory("20"@),
                RuleView::Mandatory("30"@),
                RuleView::OptionalOption("57"@, seq!["A"@, "B"@, "D"@]),
                RuleView::Optional("72"@),
            ],
            item_start: ""@,
            items: Seq::empty(),
            trailer: Seq::empty(),
            complete: false,
        }
    }

    /// The fields of the message as its layout took them.
    pub open spec fn slots(&self) -> ParsedView {
        (
            seq![
                seq![self.sum_of_amounts@],
                seq![self.transaction_reference@],
                seq![self.execution_date@],
                opt_slot(self.account_with_institution),
                opt_slot(self.sender_to_receiver),
            ],
            MT204Transaction::item_slots(self.transactions@),
            Seq::empty(),
        )
    }

    /// The fields of the message in writing order.
    pub open spec fn fields_in_order(&self) -> Seq<FieldView> {
        seq![self.sum_of_amounts@]
            + seq![self.transaction_reference@]
            + seq![self.execution_date@]
            + opt_slot(self.account_with_institution)
            + opt_slot(self.sender_to_receiver)
            + MT204Transaction::items_in_order(self.transactions@)
    }

    /// The layout of the message body.
    #[verifier::spinoff_prover]
    fn layout_rules() -> (l: MessageLayout)
        ensures
            l@ == Self::body_layout(),
    {
        let l = MessageLayout {
            header: vec![
                FieldRule::Mandatory("19"),
                FieldRule::Mandatory("20"),
                FieldRule::Mandatory("30"),
                FieldRule::OptionalOption("57", vec!["A", "B", "D"]),
                FieldRule::Optional("72"),
            ],
            item_start: "",
            items: Vec::new(),
            trailer: Vec::new(),
            complete: false,
        };
        assert(l@.header =~~= Self::body_layout().header);
        assert(l@.trailer =~~= Self::body_layout().trailer);
        assert(l@.items =~~= Self::body_layout().items);
        l
    }

    /// The message built from the fields its layout took.
    #[verifier::spinoff_prover]
    #[verifier::rlimit(80)]
    fn from_parsed(p: Parsed) -> (m: MT204)
        requires
            layout_fits(Self::body_layout(), p@),
            p@.1.len() == 0,
        ensures
            m.slots() == p@,
    {
        let ghost pv = p@;
        let ghost all = pv.0;
        let ghost tail = pv.2;
        let Parsed { header, items, trailer } = p;
        let mut slots = header;
        assert(slot_views(slots@) =~= all.take(slots.len() as int));
        assert(slot_fits(Self::body_layout().header[0], all[0]));
        assert(slot_fits(Self::body_layout().header[1], all[1]));
        assert(slot_fits(Self::body_layout().header[2], all[2]));
        assert(slot_fits(Self::body_layout().header[3], all[3]));
        assert(slot_fits(Self::body_layout().header[4], all[4]));
        let sender_to_receiver = take_opt(&mut slots, Ghost(all));
        let account_with_institution = take_opt(&mut slots, Ghost(all));
        let execution_date = take_one(&mut slots, Ghost(all));
        let transaction_reference = take_one(&mut slots, Ghost(all));
        let sum_of_amounts = take_one(&mut slots, Ghost(all));
        let mut tslots = trailer;
        assert(slot_views(tslots@) =~= tail.take(tslots.len() as int));
        assert(forall|i: int|
            0 <= i < item_views(items@).len() ==> slots_fit(
                MT204Transaction::rules(),
                #[trigger] item_views(items@)[i],
            )) by {
            assert(item_views(items@) == pv.1);
        }
        let transactions = MT204Transaction::from_items(items);
        let m = MT204 { transaction_reference, sum_of_amounts, execution_date, account_with_institution, sender_to_receiver, transactions };
        assert(m.slots().0 =~= pv.0);
        assert(m.slots().1 =~= pv.1);
        assert(m.slots().2 =~= pv.2);
        m
    }

    /// What parsing `block4` by the layout gives: the message with the
    /// fields each rule took, or the error that stands for the failure.
    pub open spec fn taken(block4: Seq<char>, r: Result<MT204, ParseError>) -> bool {
        match layout_outcome(block4, Self::body_layout()) {
            Ok(p) => r matches Ok(m) && m.slots() == p,
            Err(e) => r matches Err(pe) && error_is(pe, e),
        }
    }

    /// Parse message from Block 4 content
    pub fn parse_from_block4(block4: &str) -> (r: Result<MT204, ParseError>)
        ensures
            Self::taken(block4@, r),
    {
        let layout = Self::layout_rules();
        match parse_layout(block4, "204", &layout) {
            Ok(p) => Ok(Self::from_parsed(p)),
            Err(e) => Err(e),
        }
    }

    /// The fields of the message as (tag, content) pairs, in writing order.
    pub fn to_ordered_fields(&self) -> (r: Vec<(String, String)>)
        ensures
            pair_views(r@) == self.fields_in_order(),
    {
        let mut v: Vec<(String, String)> = Vec::new();
        push_field(&mut v, &self.sum_of_amounts);
        assert(pair_views(v@) =~= seq![self.sum_of_amounts@]);
        push_field(&mut v, &self.transaction_reference);
        push_field(&mut v, &self.execution_date);
        push_optional(&mut v, &self.account_with_institution);
        push_optional(&mut v, &self.sender_to_receiver);
        MT204Transaction::push_items(&self.transactions, &mut v);
        v
    }

    /// Convert to SWIFT MT text format
    pub fn to_mt_string(&self) -> (r: String)
        ensures
            r@ == mt_text(self.fields_in_order()),
    {
        render_mt(&self.to_ordered_fields())
    }
}

impl SwiftMessageBody for MT204 {
    open spec fn type_code() -> Seq<char> {
        "204"@
    }

    open spec fn layout() -> LayoutView {
        Self::body_layout()
    }

    open spec fn parsed(&self) -> ParsedView {
        self.slots()
    }

    open spec fn ordered(&self) -> Seq<FieldView> {
        self.fields_in_order()
    }

    open spec fn parse_spec(block4: Seq<char>, r: Result<Self, ParseError>) -> bool {
        Self::taken(block4, r)
    }

    open spec fn required_tags() -> Seq<Seq<char>> {
        seq![
            "19"@,
            "20"@,
            "30"@,
        ]
    }

    open spec fn optional_tags() -> Seq<Seq<char>> {
        seq![
            "57"@,
            "72"@,
        ]
    }

    open spec fn rejected(&self) -> bool {
        false
    }

    open spec fn returned(&self) -> bool {
        false
    }

    open spec fn cover(&self) -> bool {
        false
    }

    open spec fn stp(&self) -> bool {
        false
    }

    fn message_type() -> (r: &'static str) {
        "204"
    }

    fn parse_from_block4(block4: &str) -> (r: Result<Self, ParseError>) {
        MT204::parse_from_block4(block4)
    }

    fn to_ordered_fields(&self) -> (r: Vec<(String, String)>) {
        MT204::to_ordered_fields(self)
    }

    fn to_mt_string(&self) -> (r: String) {
        MT204::to_mt_string(self)
    }

    fn required_fields() -> (r: Vec<&'static str>) {
        let r = vec![
            "19",
            "20",
            "30",
        ];
        assert(str_views(r@) =~= Self::required_tags());
        r
    }

    fn optional_fields() -> (r: Vec<&'static str>) {
        let r = vec![
            "57",
            "72",
        ];
        assert(str_views(r@) =~= Self::optional_tags());
        r
    }

    fn has_reject_codes(&self) -> (b: bool) {
        false
    }

    fn has_return_codes(&self) -> (b: bool) {
        false
    }

    fn is_cover_message(&self) -> (b: bool) {
        false
    }

    fn is_stp_message(&self) -> (b: bool) {
        false
    }
}

/// The currency of a transaction: the first three characters of its 32B.
pub open spec fn tx_currency(t: MT204Transaction) -> Seq<char> {
    crate::messages::amounts::cut(t.currency_amount.value@, 0, 3)
}

/// The currencies of the transactions, in order.
pub open spec fn tx_currencies(v: Seq<MT204Transaction>) -> Seq<Seq<char>> {
    v.map_values(|t: MT204Transaction| tx_currency(t))
}

/// The distinct elements of `s`, in order of first appearance.
pub open spec fn distinct_in_order(s: Seq<Seq<char>>) -> Seq<Seq<char>>
    decreases s.len(),
{
    if s.len() == 0 {
        Seq::empty()
    } else {
        let d = distinct_in_order(s.drop_last());
        if d.contains(s.last()) {
            d
        } else {
            d.push(s.last())
        }
    }
}

/// The errors of the network validated rules, in order: C2 (one currency
/// in all transactions) then T10 (at most ten transactions); with
/// `stop`, only the first.
pub open spec fn mt204_rule_errors(v: Seq<MT204Transaction>, stop: bool) -> Seq<
    crate::errors::ValidationErrorView,
> {
    let cur = tx_currencies(v);
    let found = crate::text::join(distinct_in_order(cur), ", "@);
    let c2 = if distinct_in_order(cur).len() > 1 {
        seq![
            (
                "C02"@,
                "32B"@,
                found,
                "The currency code in the amount field 32B must be the same for all occurrences of this field in the message"@,
                "All occurrences of field 32B must have the same currency code. Found currencies: "@
                    + found,
            ),
        ]
    } else {
        Seq::empty()
    };
    let count = crate::numeric::decimal(v.len());
    let t10 = if v.len() > 10 {
        seq![
            (
                "T10"@,
                "Sequence B"@,
                count,
                "The repetitive sequence must not appear more than ten times"@,
                "The repetitive sequence B appears "@ + count
                    + " times, which exceeds the maximum of 10 occurrences"@,
            ),
        ]
    } else {
        Seq::empty()
    };
    if stop && c2.len() > 0 {
        c2
    } else {
        c2 + t10
    }
}

impl MT204 {
    /// The distinct currencies of the transactions, in order of first appearance.
    fn distinct_currencies(&self) -> (r: Vec<Vec<char>>)
        ensures
            crate::text::views(r@) == distinct_in_order(tx_currencies(self.transactions@)),
    {
        let ghost cur = tx_currencies(self.transactions@);
        let mut r: Vec<Vec<char>> = Vec::new();
        let mut i: usize = 0;
        while i < self.transactions.len()
            invariant
                i <= self.transactions.len(),
                cur == tx_currencies(self.transactions@),
                crate::text::views(r@) == distinct_in_order(cur.take(i as int)),
            decreases self.transactions.len() - i,
        {
            let c = crate::messages::amounts::cut_exec(
                &crate::text::string_chars(&self.transactions[i].currency_amount.value),
                0,
                3,
            );
            assert(c@ == cur[i as int]);
            let ghost d = crate::text::views(r@);
            let mut seen = false;
            let mut k: usize = 0;
            while k < r.len()
                invariant
                    k <= r.len(),
                    d == crate::text::views(r@),
                    seen == (exists|j: int| 0 <= j < k && d[j] == c@),
                decreases r.len() - k,
            {
                if crate::text::chars_eq(&r[k], &c) {
                    seen = true;
                }
                proof {
                    assert(d[k as int] == r@[k as int]@);
                    if seen && !(exists|j: int| 0 <= j < k && d[j] == c@) {
                        assert(d[k as int] == c@);
                    }
                }
                k = k + 1;
            }
            proof {
                assert(cur.take(i + 1).drop_last() =~= cur.take(i as int));
                assert(cur.take(i + 1).last() == c@);
                if seen {
                    let j = choose|j: int| 0 <= j < r@.len() && d[j] == c@;
                    assert(d.contains(c@));
                } else {
                    assert(!d.contains(c@));
                }
            }
            if !seen {
                r.push(c);
                assert(crate::text::views(r@) =~= d.push(c@));
            }
            i = i + 1;
        }
        assert(cur.take(self.transactions.len() as int) =~= cur);
        r
    }

    /// Network validated rules C2 and T10; rule C1 (the sum of the amounts
    /// in field 19) compares amounts as floating-point numbers and is left
    /// to the caller.
    pub fn validate_network_rules(&self, stop_on_first_error: bool) -> (r: Vec<
        crate::errors::SwiftValidationError,
    >)
        ensures
            crate::errors::error_views(r@) == mt204_rule_errors(self.transactions@, stop_on_first_error),
    {
        let mut out: Vec<crate::errors::SwiftValidationError> = Vec::new();
        let d = self.distinct_currencies();
        let found = crate::text::join_chars(&d, &crate::text::to_chars(", "));
        let ghost c2len: int = 0;
        if d.len() > 1 {
            let mut msg = crate::text::to_chars(
                "All occurrences of field 32B must have the same currency code. Found currencies: ",
            );
            crate::text::append_chars(&mut msg, &found);
            let fs = crate::text::from_chars(&found);
            let ms = crate::text::from_chars(&msg);
            out.push(crate::errors::SwiftValidationError::content_error(
                "C02",
                "32B",
                fs.as_str(),
                ms.as_str(),
                "The currency code in the amount field 32B must be the same for all occurrences of this field in the message",
            ));
            if stop_on_first_error {
                assert(crate::errors::error_views(out@) =~= mt204_rule_errors(
                    self.transactions@,
                    stop_on_first_error,
                ));
                return out;
            }
        }
        let ghost before = crate::errors::error_views(out@);
        let n = self.transactions.len();
        if n > 10 {
            let count = crate::numeric::usize_to_decimal(n);
            let mut msg = crate::text::to_chars("The repetitive sequence B appears ");
            crate::text::append_chars(&mut msg, &count);
            crate::text::append_chars(&mut msg, &crate::text::to_chars(" times, which exceeds the maximum of 10 occurrences"));
            let cs = crate::text::from_chars(&count);
            let ms = crate::text::from_chars(&msg);
            out.push(crate::errors::SwiftValidationError::content_error(
                "T10",
                "Sequence B",
                cs.as_str(),
                ms.as_str(),
                "The repetitive sequence must not appear more than ten times",
            ));
        }
        assert(crate::errors::error_views(out@) =~= mt204_rule_errors(
            self.transactions@,
            stop_on_first_error,
        ));
        out
    }
}

/// A sequence with two different elements has at least two distinct ones.
proof fn lemma_two_distinct(s: Seq<Seq<char>>, i: int, j: int)
    requires
        0 <= i < j < s.len(),
        s[i] != s[j],
    ensures
        distinct_in_order(s).len() >= 2,
    decreases s.len(),
{
    lemma_distinct_contains(s.take(j + 1));
    assert(s.take(j + 1)[i] == s[i]);
    assert(s.take(j + 1)[j] == s[j]);
    let d = distinct_in_order(s.take(j + 1));
    assert(d.contains(s[i]) && d.contains(s[j]));
    if d.len() < 2 {
        assert(d.len() == 1 ==> d[0] == s[i] && d[0] == s[j]) by {
            if d.len() == 1 {
                let a = choose|x: int| 0 <= x < d.len() && d[x] == s[i];
                let b = choose|x: int| 0 <= x < d.len() && d[x] == s[j];
            }
        }
    }
    lemma_distinct_prefix(s, j + 1);
}

/// Each element appears among the distinct elements, and only elements
/// appear there.
proof fn lemma_distinct_contains(s: Seq<Seq<char>>)
    ensures
        forall|i: int| 0 <= i < s.len() ==> distinct_in_order(s).contains(#[trigger] s[i]),
        forall|x: Seq<char>| #[trigger] distinct_in_order(s).contains(x) ==> s.contains(x),
    decreases s.len(),
{
    if s.len() > 0 {
        let p = s.drop_last();
        let l = s.len() - 1;
        lemma_distinct_contains(p);
        let dp = distinct_in_order(p);
        let ds = distinct_in_order(s);
        assert(ds == if dp.contains(s[l]) { dp } else { dp.push(s[l]) });
        assert forall|i: int| 0 <= i < s.len() implies ds.contains(#[trigger] s[i]) by {
            if i < l {
                assert(p[i] == s[i]);
                assert(dp.contains(p[i]));
                let k = choose|k: int| 0 <= k < dp.len() && dp[k] == p[i];
                assert(ds[k] == dp[k]);
            } else if !dp.contains(s[l]) {
                assert(ds[dp.len() as int] == s[l]);
            }
        }
        assert forall|x: Seq<char>| #[trigger] ds.contains(x) implies s.contains(x) by {
            let k = choose|k: int| 0 <= k < ds.len() && ds[k] == x;
            if k < dp.len() {
                assert(ds[k] == dp[k]);
                assert(dp.contains(x));
                assert(p.contains(x));
                let q = choose|q: int| 0 <= q < p.len() && p[q] == x;
                assert(s[q] == x);
            } else {
                assert(s[l] == x);
            }
        }
    }
}

/// The distinct elements of a prefix are no more than those of the whole.
proof fn lemma_distinct_prefix(s: Seq<Seq<char>>, n: int)
    requires
        0 <= n <= s.len(),
    ensures
        distinct_in_order(s.take(n)).len() <= distinct_in_order(s).len(),
    decreases s.len() - n,
{
    if n < s.len() {
        lemma_distinct_prefix(s, n + 1);
        assert(s.take(n + 1).drop_last() =~= s.take(n));
    } else {
        assert(s.take(n) =~= s);
    }
}

/// A sequence whose elements are all its first has at most one distinct.
proof fn lemma_one_distinct(s: Seq<Seq<char>>)
    requires
        forall|i: int| 0 <= i < s.len() ==> #[trigger] s[i] == s[0],
    ensures
        distinct_in_order(s).len() <= 1,
    decreases s.len(),
{
    if s.len() == 1 {
        assert(s.drop_last() =~= Seq::<Seq<char>>::empty());
        assert(distinct_in_order(s.drop_last()).len() == 0);
    } else if s.len() > 1 {
        let p = s.drop_last();
        let l = s.len() - 1;
        assert forall|i: int| 0 <= i < p.len() implies #[trigger] p[i] == p[0] by {
            assert(p[i] == s[i]);
            assert(p[0] == s[0]);
        }
        lemma_one_distinct(p);
        lemma_distinct_contains(p);
        assert(p[0] == s[0]);
        assert(s[l] == s[0]);
        assert(distinct_in_order(p).contains(p[0]));
        assert(distinct_in_order(p).contains(s[l]));
        assert(s.last() == s[l]);
        assert(distinct_in_order(s) == distinct_in_order(p));
    }
}

impl MT204 {
    /// Two transactions whose amounts (32B) start with different
    /// currencies give a C02 error, which comes first.
    pub proof fn lemma_mixed_currencies(m: MT204, i: int, j: int, stop: bool)
        requires
            0 <= i < j < m.transactions.len(),
            m.transactions@[i].currency_amount.value@.len() >= 3,
            m.transactions@[j].currency_amount.value@.len() >= 3,
            m.transactions@[i].currency_amount.value@.subrange(0, 3) != m.transactions@[j].currency_amount.value@.subrange(0, 3),
        ensures
            mt204_rule_errors(m.transactions@, stop).len() > 0,
            mt204_rule_errors(m.transactions@, stop)[0].0 == "C02"@,
    {
        let cur = tx_currencies(m.transactions@);
        assert(cur[i] == m.transactions@[i].currency_amount.value@.subrange(0, 3));
        assert(cur[j] == m.transactions@[j].currency_amount.value@.subrange(0, 3));
        lemma_two_distinct(cur, i, j);
    }

    /// More than ten transactions give a T10 error, unless only the first
    /// error is asked for and another came first.
    pub proof fn lemma_too_many_transactions(m: MT204)
        requires
            m.transactions.len() > 10,
        ensures
            exists|k: int| 0 <= k < mt204_rule_errors(m.transactions@, false).len() && (#[trigger] mt204_rule_errors(m.transactions@, false)[k]).0 == "T10"@,
            mt204_rule_errors(m.transactions@, true).len() > 0,
    {
        let e = mt204_rule_errors(m.transactions@, false);
        assert(e[e.len() - 1].0 == "T10"@);
    }

    /// At most ten transactions, all in one currency, give no error.
    pub proof fn lemma_one_currency_few_transactions(m: MT204, stop: bool)
        requires
            m.transactions.len() <= 10,
            forall|i: int| 0 <= i < m.transactions.len() ==> crate::messages::amounts::cut((#[trigger] m.transactions@[i]).currency_amount.value@, 0, 3)
                == crate::messages::amounts::cut(m.transactions@[0].currency_amount.value@, 0, 3),
        ensures
            mt204_rule_errors(m.transactions@, stop).len() == 0,
    {
        let cur = tx_currencies(m.transactions@);
        assert forall|i: int| 0 <= i < cur.len() implies #[trigger] cur[i] == cur[0] by {
            assert(cur[i] == tx_currency(m.transactions@[i]));
        }
        lemma_one_distinct(cur);
    }
}

} // verus!

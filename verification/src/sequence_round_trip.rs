//! Reading back messages with repeated sequences: a header, items that
//! repeat one set of rules, and a trailer. Written in the order in which
//! their rules take them, the fields come back slot by slot, wherever no
//! rule finds a field that belongs further on.

use vstd::prelude::*;
use crate::block4::positioned_pairs;
use crate::field_map::{map_from_pairs, map_get, PosValue, TagGroup};
use crate::message_parser::{
    run_items, run_rules, slot_fits, step, take_all, tagged, values_of, ErrView, FieldView,
    LayoutView, ParsedView, RuleView,
};
use crate::parser::consumption::{
    any_consumed, chosen_at, eligible, exact_hit, first_available, group_key, is_variant_tag,
    lookup_order, lookup_spec, min_unconsumed, variant_of, Consumed,
};
use crate::parsing_utils::mt_text;
use crate::round_trip::{
    accepted_tag, flat, has_tag, in_family, lemma_map_groups, lemma_taken_one_more,
    lemma_values_tagged_none, option_tag, rule_tag, taken_set, values_tagged, writable_fields,
};

verus! {

/// The taken values before position `n` are exactly the fields before it.
proof fn lemma_taken_before(fs: Seq<FieldView>, n: int, x: Seq<char>, k: int)
    requires
        0 <= k < fs.len(),
        fs.len() <= usize::MAX,
        fs[k].0 == x,
    ensures
        taken_set(fs, n).contains((x, k as usize)) <==> k < n,
{
    if taken_set(fs, n).contains((x, k as usize)) {
        let k2 = choose|k2: int| 0 <= k2 < n && (x, k as usize) == (#[trigger] fs[k2].0, k2 as usize);
    }
    if k < n {
        assert((x, k as usize) == (fs[k].0, k as usize));
    }
}

/// The first free value under `t`, when the values before `n` are the ones
/// taken: the first field tagged `t` from `n` on, or none.
proof fn lemma_first_free(fs: Seq<FieldView>, t: Seq<char>, c: Set<Consumed>, n: int)
    requires
        0 <= n,
        fs.len() <= usize::MAX,
        forall|k: int| 0 <= k < fs.len() && #[trigger] fs[k].0 == t ==> (c.contains((t, k as usize)) <==> k < n),
    ensures
        match first_available(c, t, values_tagged(fs, t)) {
            Some(j) => {
                let p = values_tagged(fs, t)[j].1 as int;
                &&& 0 <= j < values_tagged(fs, t).len()
                &&& n <= p < fs.len()
                &&& fs[p].0 == t
                &&& values_tagged(fs, t)[j].0 == fs[p].1
                &&& forall|k: int| n <= k < p ==> #[trigger] fs[k].0 != t
            },
            None => forall|k: int| n <= k < fs.len() ==> #[trigger] fs[k].0 != t,
        },
    decreases fs.len(),
{
    if fs.len() > 0 {
        let p = fs.drop_last();
        let l = fs.len() - 1;
        assert forall|k: int| 0 <= k < p.len() && #[trigger] p[k].0 == t implies (c.contains((t, k as usize)) <==> k < n) by {
            assert(p[k] == fs[k]);
        }
        lemma_first_free(p, t, c, n);
        let vp = values_tagged(p, t);
        if fs[l].0 == t {
            let vals = vp.push((fs[l].1, l as usize));
            assert(values_tagged(fs, t) == vals);
            assert(vals.drop_last() =~= vp);
            match first_available(c, t, vp) {
                Some(j) => {
                    let q = vp[j].1 as int;
                    assert(vals[j] == vp[j]);
                    assert(p[q] == fs[q]);
                    assert forall|k: int| n <= k < q implies #[trigger] fs[k].0 != t by {
                        assert(p[k] == fs[k]);
                    }
                },
                None => {
                    assert forall|k: int| n <= k < l implies #[trigger] fs[k].0 != t by {
                        assert(p[k] == fs[k]);
                    }
                },
            }
        } else {
            assert(values_tagged(fs, t) == vp);
            match first_available(c, t, vp) {
                Some(j) => {
                    let q = vp[j].1 as int;
                    assert(p[q] == fs[q]);
                    assert forall|k: int| n <= k < q implies #[trigger] fs[k].0 != t by {
                        assert(p[k] == fs[k]);
                    }
                },
                None => {
                    assert forall|k: int| n <= k < fs.len() implies #[trigger] fs[k].0 != t by {
                        if k < l {
                            assert(p[k] == fs[k]);
                        }
                    }
                },
            }
        }
    }
}

/// The smallest free position under `t`, when the values before `n` are
/// the ones taken: that of the first free value, or `usize::MAX` if none.
proof fn lemma_min_free(fs: Seq<FieldView>, t: Seq<char>, c: Set<Consumed>, n: int)
    requires
        0 <= n,
        fs.len() <= usize::MAX,
        forall|k: int| 0 <= k < fs.len() && #[trigger] fs[k].0 == t ==> (c.contains((t, k as usize)) <==> k < n),
    ensures
        min_unconsumed(c, t, values_tagged(fs, t)) == match first_available(c, t, values_tagged(fs, t)) {
            Some(j) => values_tagged(fs, t)[j].1 as int,
            None => usize::MAX as int,
        },
    decreases fs.len(),
{
    if fs.len() > 0 {
        let p = fs.drop_last();
        let l = fs.len() - 1;
        assert forall|k: int| 0 <= k < p.len() && #[trigger] p[k].0 == t implies (c.contains((t, k as usize)) <==> k < n) by {
            assert(p[k] == fs[k]);
        }
        lemma_min_free(p, t, c, n);
        lemma_first_free(p, t, c, n);
        let vp = values_tagged(p, t);
        if fs[l].0 == t {
            let vals = vp.push((fs[l].1, l as usize));
            assert(values_tagged(fs, t) == vals);
            assert(vals.drop_last() =~= vp);
            if first_available(c, t, vp) is Some {
                let j = first_available(c, t, vp)->0;
                assert(vals[j] == vp[j]);
            }
        } else {
            assert(values_tagged(fs, t) == vp);
        }
    }
}

/// The values of the fields tagged `t` from position `n` on, in order.
pub open spec fn values_from(fs: Seq<FieldView>, t: Seq<char>, n: int) -> Seq<Seq<char>>
    decreases fs.len(),
{
    if fs.len() == 0 {
        Seq::empty()
    } else if fs.last().0 == t && fs.len() - 1 >= n {
        values_from(fs.drop_last(), t, n).push(fs.last().1)
    } else {
        values_from(fs.drop_last(), t, n)
    }
}

/// The positioned fields tagged `t` from position `n` on.
pub open spec fn positions_from(fs: Seq<FieldView>, t: Seq<char>, n: int) -> Set<Consumed> {
    Set::new(|x: Consumed| exists|k: int| n <= k < fs.len() && #[trigger] fs[k].0 == t && x == (t, k as usize))
}

/// Taking every free value under `t`, when the values before `n` are the
/// ones taken: the values from `n` on.
proof fn lemma_take_rest(fs: Seq<FieldView>, t: Seq<char>, c: Set<Consumed>, n: int)
    requires
        0 <= n,
        fs.len() <= usize::MAX,
        forall|k: int| 0 <= k < fs.len() && #[trigger] fs[k].0 == t ==> (c.contains((t, k as usize)) <==> k < n),
    ensures
        take_all(c, t, values_tagged(fs, t)) == (values_from(fs, t, n), c.union(positions_from(fs, t, n))),
    decreases fs.len(),
{
    if fs.len() == 0 {
        assert(positions_from(fs, t, n) =~= Set::<Consumed>::empty());
        assert(c.union(positions_from(fs, t, n)) =~= c);
    } else {
        let p = fs.drop_last();
        let l = fs.len() - 1;
        assert forall|k: int| 0 <= k < p.len() && #[trigger] p[k].0 == t implies (c.contains((t, k as usize)) <==> k < n) by {
            assert(p[k] == fs[k]);
        }
        lemma_take_rest(p, t, c, n);
        let vp = values_tagged(p, t);
        let pp = positions_from(p, t, n);
        let pf = positions_from(fs, t, n);
        assert(!pp.contains((t, l as usize))) by {
            if pp.contains((t, l as usize)) {
                let k = choose|k: int| n <= k < p.len() && #[trigger] p[k].0 == t && (t, l as usize) == (t, k as usize);
            }
        }
        if fs[l].0 == t {
            let vals = vp.push((fs[l].1, l as usize));
            assert(values_tagged(fs, t) == vals);
            assert(vals.drop_last() =~= vp);
            if l < n {
                assert(pf =~= pp) by {
                    assert forall|x: Consumed| #[trigger] pf.contains(x) implies pp.contains(x) by {
                        let k = choose|k: int| n <= k < fs.len() && #[trigger] fs[k].0 == t && x == (t, k as usize);
                        assert(p[k] == fs[k]);
                    }
                    assert forall|x: Consumed| #[trigger] pp.contains(x) implies pf.contains(x) by {
                        let k = choose|k: int| n <= k < p.len() && #[trigger] p[k].0 == t && x == (t, k as usize);
                        assert(p[k] == fs[k]);
                    }
                }
            } else {
                assert(c.union(pp).insert((t, l as usize)) =~= c.union(pf)) by {
                    assert forall|x: Consumed| #[trigger] pf.contains(x) implies c.union(pp).insert((t, l as usize)).contains(x) by {
                        let k = choose|k: int| n <= k < fs.len() && #[trigger] fs[k].0 == t && x == (t, k as usize);
                        if k < l {
                            assert(p[k] == fs[k]);
                            assert(pp.contains(x));
                        }
                    }
                    assert forall|x: Consumed| #[trigger] pp.contains(x) implies pf.contains(x) by {
                        let k = choose|k: int| n <= k < p.len() && #[trigger] p[k].0 == t && x == (t, k as usize);
                        assert(p[k] == fs[k]);
                    }
                }
            }
        } else {
            assert(values_tagged(fs, t) == vp);
            assert(pf =~= pp) by {
                assert forall|x: Consumed| #[trigger] pf.contains(x) implies pp.contains(x) by {
                    let k = choose|k: int| n <= k < fs.len() && #[trigger] fs[k].0 == t && x == (t, k as usize);
                    assert(p[k] == fs[k]);
                }
                assert forall|x: Consumed| #[trigger] pp.contains(x) implies pf.contains(x) by {
                    let k = choose|k: int| n <= k < p.len() && #[trigger] p[k].0 == t && x == (t, k as usize);
                    assert(p[k] == fs[k]);
                }
            }
        }
    }
}

/// No values from a position at or past the end.
proof fn lemma_values_from_none(fs: Seq<FieldView>, t: Seq<char>, n: int)
    requires
        fs.len() <= n,
    ensures
        values_from(fs, t, n) == Seq::<Seq<char>>::empty(),
    decreases fs.len(),
{
    if fs.len() > 0 {
        lemma_values_from_none(fs.drop_last(), t, n);
    }
}

/// The values from `n` on, when the fields tagged `t` from `n` on are those
/// before `e`.
proof fn lemma_values_from_range(fs: Seq<FieldView>, t: Seq<char>, n: int, e: int)
    requires
        0 <= n <= e <= fs.len(),
        forall|k: int| n <= k < fs.len() ==> (#[trigger] fs[k].0 == t <==> k < e),
    ensures
        values_from(fs, t, n) == Seq::new((e - n) as nat, |q: int| fs[n + q].1),
    decreases fs.len(),
{
    if fs.len() == 0 || e == n && fs.len() == e {
        lemma_values_from_none(fs, t, n);
        assert(Seq::new((e - n) as nat, |q: int| fs[n + q].1) =~= Seq::<Seq<char>>::empty());
    } else {
        let p = fs.drop_last();
        let l = fs.len() - 1;
        if fs.len() > e {
            assert forall|k: int| n <= k < p.len() implies (#[trigger] p[k].0 == t <==> k < e) by {
                assert(p[k] == fs[k]);
            }
            lemma_values_from_range(p, t, n, e);
            assert(Seq::new((e - n) as nat, |q: int| p[n + q].1) =~= Seq::new((e - n) as nat, |q: int| fs[n + q].1));
        } else {
            assert forall|k: int| n <= k < p.len() implies (#[trigger] p[k].0 == t <==> k < e - 1) by {
                assert(p[k] == fs[k]);
            }
            lemma_values_from_range(p, t, n, e - 1);
            assert(fs[l].0 == t);
            assert(Seq::new((e - 1 - n) as nat, |q: int| p[n + q].1).push(fs[l].1) =~= Seq::new((e - n) as nat, |q: int| fs[n + q].1));
        }
    }
}

/// A field tagged `t` at `n` adds one to the values from `n` over those from
/// any later position.
proof fn lemma_values_from_more(fs: Seq<FieldView>, t: Seq<char>, n: int, n2: int)
    requires
        0 <= n < n2,
        n < fs.len(),
        fs[n].0 == t,
    ensures
        values_from(fs, t, n).len() >= values_from(fs, t, n2).len() + 1,
    decreases fs.len(),
{
    let p = fs.drop_last();
    let l = fs.len() - 1;
    if l == n {
        lemma_values_from_none(fs, t, n2);
    } else {
        assert(p[n] == fs[n]);
        lemma_values_from_more(p, t, n, n2);
    }
}

/// There are at least as many values under `t` as values from any position.
proof fn lemma_values_from_len(fs: Seq<FieldView>, t: Seq<char>, n: int)
    ensures
        values_tagged(fs, t).len() >= values_from(fs, t, n).len(),
    decreases fs.len(),
{
    if fs.len() > 0 {
        lemma_values_from_len(fs.drop_last(), t, n);
    }
}

/// Every field tagged `t` is taken exactly when it stands before `n`.
proof fn lemma_taken_cond(fs: Seq<FieldView>, n: int, t: Seq<char>)
    requires
        fs.len() <= usize::MAX,
    ensures
        forall|k: int|
            0 <= k < fs.len() && #[trigger] fs[k].0 == t ==> (taken_set(fs, n).contains((t, k as usize)) <==> k < n),
{
    assert forall|k: int| 0 <= k < fs.len() && #[trigger] fs[k].0 == t implies (taken_set(fs, n).contains(
        (t, k as usize),
    ) <==> k < n) by {
        lemma_taken_before(fs, n, t, k);
    }
}

/// A field with tag `t` further on than the slot `s` of rule `r` does not
/// keep the rule from taking back its slot: a rule by tag with a field of
/// its own takes that first; a repeated rule takes every field of its tag,
/// so none may follow; a rule by field number prefers a field with the bare
/// number, and otherwise the first free field of an allowed option; with an
/// empty slot, a rule takes nothing only where no field it could take
/// follows.
pub open spec fn later_ok(r: RuleView, s: Seq<FieldView>, t: Seq<char>) -> bool {
    match r {
        RuleView::Mandatory(x) => t == x ==> s.len() > 0,
        RuleView::Optional(x) => t == x ==> s.len() > 0,
        RuleView::Repeated(x) => t != x,
        RuleView::MandatoryOption(b, o) => if s.len() > 0 {
            s[0].0 != b ==> t != b
        } else {
            !(t == b || (is_variant_tag(b, t) && o.contains(variant_of(t))))
        },
        RuleView::OptionalOption(b, o) => if s.len() > 0 {
            s[0].0 != b ==> t != b
        } else {
            !(t == b || (is_variant_tag(b, t) && o.contains(variant_of(t))))
        },
    }
}

/// The slot `s`, written at position `n` of the fields `fs`, comes back to
/// its rule `r`: it stands there, fits the rule, each of its fields carries
/// a tag that the rule reads back, no field further on keeps the rule from
/// taking it back, and a mandatory rule that allows no repeat finds no
/// field of its tag before it.
pub open spec fn slot_at(fs: Seq<FieldView>, n: int, r: RuleView, s: Seq<FieldView>, dup: bool) -> bool {
    &&& 0 <= n
    &&& n + s.len() <= fs.len()
    &&& forall|q: int| 0 <= q < s.len() ==> fs[n + q] == #[trigger] s[q]
    &&& slot_fits(r, s)
    &&& forall|q: int| 0 <= q < s.len() ==> accepted_tag(r, (#[trigger] s[q]).0)
    &&& forall|k: int| n + s.len() <= k < fs.len() ==> later_ok(r, s, #[trigger] fs[k].0)
    &&& (r is Mandatory && !dup) ==> forall|k: int| 0 <= k < n ==> #[trigger] fs[k].0 != rule_tag(r)
}

/// A rule by field number whose slot at `n` holds the field at `n` (where
/// `e` is `n + 1`, and no field with the bare number follows unless that
/// field has it) or nothing (where `e` is `n`, and no field that it could
/// take follows) takes back that slot.
proof fn lemma_option_at(fs: Seq<FieldView>, n: int, e: int, b: Seq<char>, o: Seq<Seq<char>>)
    requires
        0 <= n <= e <= n + 1,
        e <= fs.len(),
        fs.len() <= usize::MAX,
        e == n + 1 ==> option_tag(b, o, fs[n].0),
        e == n + 1 ==> forall|k: int| e <= k < fs.len() && fs[n].0 != b ==> #[trigger] fs[k].0 != b,
        e == n ==> forall|k: int| e <= k < fs.len() ==> !(#[trigger] fs[k].0 == b || (is_variant_tag(b, fs[k].0) && o.contains(variant_of(fs[k].0)))),
    ensures
        ({
            let m = map_from_pairs(positioned_pairs(fs));
            let c1 = taken_set(fs, n);
            &&& e == n + 1 ==> step(m, c1, false, RuleView::MandatoryOption(b, o)) == Ok::<(Seq<FieldView>, Set<Consumed>), ErrView>((seq![fs[n]], taken_set(fs, e)))
            &&& e == n + 1 ==> step(m, c1, false, RuleView::OptionalOption(b, o)) == Ok::<(Seq<FieldView>, Set<Consumed>), ErrView>((seq![fs[n]], taken_set(fs, e)))
            &&& e == n ==> step(m, c1, false, RuleView::OptionalOption(b, o)) == Ok::<(Seq<FieldView>, Set<Consumed>), ErrView>((Seq::<FieldView>::empty(), c1))
        }),
{
    let m = map_from_pairs(positioned_pairs(fs));
    let c1 = taken_set(fs, n);
    lemma_map_groups(fs);
    lemma_taken_cond(fs, n, b);
    lemma_first_free(fs, b, c1, n);
    if e == n + 1 && fs[n].0 == b {
        let vt = values_tagged(fs, b);
        assert(has_tag(fs, b));
        assert(map_get(m, b) == Some(vt));
        let j = first_available(c1, b, vt)->0;
        assert(first_available(c1, b, vt) is Some);
        assert(vt[j].1 == n) by {
            let q = vt[j].1 as int;
            if q > n {
                assert(fs[n].0 != b);
            }
        }
        assert(exact_hit(m, c1, b) == Some((fs[n].1, n as usize)));
        let x = (fs[n].1, None::<Seq<char>>, n as usize);
        let c2 = c1.insert((b, n as usize));
        assert(lookup_spec(m, c1, b, Some(o), Some(x), c2));
        crate::message_parser::lemma_lookup_result(m, c1, b, o, Some(x), c2);
        assert(!is_variant_tag(b, fs[n].0));
        assert(o.contains(Seq::<char>::empty()));
        assert(seq![(b, fs[n].1)] == seq![fs[n]]);
        lemma_taken_one_more(fs, n);
    } else {
        assert(exact_hit(m, c1, b) is None) by {
            if has_tag(fs, b) {
                assert(map_get(m, b) == Some(values_tagged(fs, b)));
                if first_available(c1, b, values_tagged(fs, b)) is Some {
                    let j = first_available(c1, b, values_tagged(fs, b))->0;
                    let q = values_tagged(fs, b)[j].1 as int;
                    assert(fs[q].0 == b);
                }
            }
        }
        let order = lookup_order(m, c1, b, Some(o));
        assert forall|k2: int| 0 <= k2 < order.len() && eligible(m, c1, Some(o), #[trigger] order[k2]) implies e == n + 1
            && group_key(m, c1, order[k2]) >= n && (m[order[k2]].0 != fs[n].0 ==> group_key(m, c1, order[k2]) > n) by {
            crate::parser::consumption::lemma_order_variant(m, c1, b, Some(o), k2);
            let g = order[k2];
            let tg = m[g].0;
            assert(m[g].1 == values_tagged(fs, tg));
            lemma_taken_cond(fs, n, tg);
            lemma_first_free(fs, tg, c1, n);
            lemma_min_free(fs, tg, c1, n);
            let j = first_available(c1, tg, values_tagged(fs, tg))->0;
            let q = values_tagged(fs, tg)[j].1 as int;
            assert(fs[q].0 == tg);
            assert(o.contains(variant_of(tg)));
            if e == n {
                assert(!(fs[q].0 == b || (is_variant_tag(b, fs[q].0) && o.contains(variant_of(fs[q].0)))));
            }
        }
        if e == n + 1 {
            let t = fs[n].0;
            assert(is_variant_tag(b, t));
            assert(has_tag(fs, t));
            crate::field_map::lemma_group_index(m, t);
            assert(map_get(m, t) == Some(values_tagged(fs, t)));
            let g0 = crate::field_map::group_index(m, t)->0;
            assert(m[g0].0 == t);
            assert(m[g0].1 == values_tagged(fs, t));
            crate::parser::consumption::lemma_order_contains(m, c1, b, Some(o), g0);
            order.index_of_first_ensures(g0);
            let k0 = order.index_of_first(g0)->0;
            lemma_taken_cond(fs, n, t);
            lemma_first_free(fs, t, c1, n);
            let vt = values_tagged(fs, t);
            let j = first_available(c1, t, vt)->0;
            assert(first_available(c1, t, vt) is Some);
            assert(vt[j].1 == n) by {
                let q = vt[j].1 as int;
                if q > n {
                    assert(fs[n].0 != t);
                }
            }
            assert(eligible(m, c1, Some(o), g0));
            lemma_min_free(fs, t, c1, n);
            assert(group_key(m, c1, g0) == n);
            assert(chosen_at(m, c1, Some(o), order, k0)) by {
                assert forall|k2: int| 0 <= k2 < order.len() && eligible(m, c1, Some(o), #[trigger] order[k2]) implies group_key(
                    m,
                    c1,
                    order[k0],
                ) < group_key(m, c1, order[k2]) || (group_key(m, c1, order[k0]) == group_key(m, c1, order[k2]) && k0 <= k2) by {
                    crate::parser::consumption::lemma_order_variant(m, c1, b, Some(o), k2);
                    if m[order[k2]].0 == t {
                        crate::field_map::lemma_group_index_unique(m, t, order[k2]);
                    }
                }
            }
            let x = (fs[n].1, Some(variant_of(t)), n as usize);
            let c2 = c1.insert((t, n as usize));
            assert(lookup_spec(m, c1, b, Some(o), Some(x), c2)) by {
                assert(m[order[k0]].1[j] == (fs[n].1, n as usize));
            }
            crate::message_parser::lemma_lookup_result(m, c1, b, o, Some(x), c2);
            assert(b + variant_of(t) =~= t);
            lemma_taken_one_more(fs, n);
        } else {
            assert(lookup_spec(m, c1, b, Some(o), None, c1));
            crate::message_parser::lemma_lookup_result(m, c1, b, o, None, c1);
        }
    }
}

/// A rule takes back the slot written at position `n`, after the fields
/// before it were taken.
#[verifier::rlimit(40)]
proof fn lemma_step_at(fs: Seq<FieldView>, n: int, r: RuleView, s: Seq<FieldView>, dup: bool)
    requires
        slot_at(fs, n, r, s, dup),
        fs.len() <= usize::MAX,
    ensures
        step(map_from_pairs(positioned_pairs(fs)), taken_set(fs, n), dup, r) == Ok::<(Seq<FieldView>, Set<Consumed>), ErrView>((s, taken_set(fs, n + s.len()))),
{
    let m = map_from_pairs(positioned_pairs(fs));
    let c1 = taken_set(fs, n);
    let e = n + s.len();
    lemma_map_groups(fs);
    match r {
        RuleView::Mandatory(t) => {
            assert(slot_at(fs, n, RuleView::Mandatory(t), s, true));
            assert(s.len() == 1);
            lemma_exact_at(fs, n, t, s);
            assert(!dup ==> !any_consumed(c1, t)) by {
                if !dup && any_consumed(c1, t) {
                    let p = choose|p: usize| c1.contains((t, p));
                    let k = choose|k: int| 0 <= k < n && (t, p) == (#[trigger] fs[k].0, k as usize);
                    assert(fs[k].0 != rule_tag(r));
                }
            }
        },
        RuleView::Optional(t) => {
            assert(slot_at(fs, n, RuleView::Optional(t), s, true));
            lemma_exact_at(fs, n, t, s);
            if s.len() == 0 {
                assert(s =~= Seq::<FieldView>::empty());
            }
        },
        RuleView::Repeated(t) => {
            assert forall|k: int| n <= k < fs.len() implies (#[trigger] fs[k].0 == t <==> k < e) by {
                if k < e {
                    assert(fs[n + (k - n)] == s[k - n]);
                    assert(accepted_tag(r, s[k - n].0));
                } else {
                    assert(later_ok(r, s, fs[k].0));
                }
            }
            lemma_taken_cond(fs, n, t);
            lemma_take_rest(fs, t, c1, n);
            lemma_values_from_range(fs, t, n, e);
            assert(values_of(m, t) == values_tagged(fs, t)) by {
                if !has_tag(fs, t) {
                    lemma_values_tagged_none(fs, t);
                }
            }
            assert(tagged(t, values_from(fs, t, n)) =~= s) by {
                assert forall|q: int| 0 <= q < s.len() implies #[trigger] s[q] == (t, values_from(fs, t, n)[q]) by {
                    assert(fs[n + q] == s[q]);
                    assert(accepted_tag(r, s[q].0));
                }
            }
            assert(c1.union(positions_from(fs, t, n)) =~= taken_set(fs, e)) by {
                assert forall|x: Consumed| #[trigger] taken_set(fs, e).contains(x) implies c1.union(positions_from(fs, t, n)).contains(x) by {
                    let k = choose|k: int| 0 <= k < e && x == (#[trigger] fs[k].0, k as usize);
                    if k >= n {
                        assert(fs[k].0 == t);
                        assert(positions_from(fs, t, n).contains(x));
                    } else {
                        assert(c1.contains(x));
                    }
                }
                assert forall|x: Consumed| #[trigger] c1.union(positions_from(fs, t, n)).contains(x) implies taken_set(fs, e).contains(x) by {
                    if c1.contains(x) {
                        let k = choose|k: int| 0 <= k < n && x == (#[trigger] fs[k].0, k as usize);
                    } else {
                        let k = choose|k: int| n <= k < fs.len() && #[trigger] fs[k].0 == t && x == (t, k as usize);
                        assert(fs[k].0 == t);
                    }
                }
            }
        },
        RuleView::MandatoryOption(b, o) => {
            assert(fs[n + 0] == s[0]);
            assert forall|k: int| e <= k < fs.len() && fs[n].0 != b implies #[trigger] fs[k].0 != b by {
                assert(later_ok(r, s, fs[k].0));
            }
            assert(accepted_tag(r, s[0].0));
            lemma_option_at(fs, n, e, b, o);
            assert(s =~= seq![fs[n]]);
        },
        RuleView::OptionalOption(b, o) => {
            assert forall|k: int| e <= k < fs.len() implies #[trigger] later_ok(r, s, fs[k].0) by {}
            if s.len() > 0 {
                assert(fs[n + 0] == s[0]);
                assert forall|k: int| e <= k < fs.len() && fs[n].0 != b implies #[trigger] fs[k].0 != b by {
                    assert(later_ok(r, s, fs[k].0));
                }
            } else {
                assert forall|k: int| e <= k < fs.len() implies !(#[trigger] fs[k].0 == b || (is_variant_tag(b, fs[k].0) && o.contains(variant_of(fs[k].0)))) by {
                    assert(later_ok(r, s, fs[k].0));
                }
            }
            if s.len() > 0 {
                assert(fs[n + 0] == s[0]);
                assert(accepted_tag(r, s[0].0));
                assert(s =~= seq![fs[n]]);
            } else {
                assert(s =~= Seq::<FieldView>::empty());
            }
            lemma_option_at(fs, n, e, b, o);
        },
    }
}

/// A rule by tag takes back the slot written at position `n`: its field,
/// the first free one under the tag; or, for an empty slot, nothing, no
/// field of the tag standing further on.
proof fn lemma_exact_at(fs: Seq<FieldView>, n: int, t: Seq<char>, s: Seq<FieldView>)
    requires
        slot_at(fs, n, RuleView::Optional(t), s, true) || slot_at(fs, n, RuleView::Mandatory(t), s, true),
        fs.len() <= usize::MAX,
    ensures
        ({
            let m = map_from_pairs(positioned_pairs(fs));
            let c1 = taken_set(fs, n);
            &&& s.len() == 1 ==> exact_hit(m, c1, t) == Some((fs[n].1, n as usize)) && s == seq![(t, fs[n].1)]
                && c1.insert((t, n as usize)) == taken_set(fs, n + 1)
            &&& s.len() == 0 ==> exact_hit(m, c1, t) is None
            &&& s.len() <= 1
        }),
{
    let m = map_from_pairs(positioned_pairs(fs));
    let c1 = taken_set(fs, n);
    lemma_map_groups(fs);
    lemma_taken_cond(fs, n, t);
    lemma_first_free(fs, t, c1, n);
    let vt = values_tagged(fs, t);
    if s.len() == 1 {
        assert(fs[n + 0] == s[0]);
        assert(fs[n].0 == t);
        assert(has_tag(fs, t));
        assert(map_get(m, t) == Some(vt));
        assert(first_available(c1, t, vt) is Some);
        let j = first_available(c1, t, vt)->0;
        assert(vt[j].1 == n) by {
            let q = vt[j].1 as int;
            if q > n {
                assert(fs[n].0 != t);
            }
        }
        assert(s =~= seq![(t, fs[n].1)]);
        lemma_taken_one_more(fs, n);
    } else if s.len() == 0 {
        if has_tag(fs, t) {
            assert(map_get(m, t) == Some(vt));
            if first_available(c1, t, vt) is Some {
                let j = first_available(c1, t, vt)->0;
                let q = vt[j].1 as int;
                assert(fs[q].0 == t);
                assert(later_ok(RuleView::Optional(t), s, fs[q].0) || later_ok(RuleView::Mandatory(t), s, fs[q].0));
            }
        }
    }
}

/// The slots `ss`, written one after the other from position `n`, each
/// come back to its rule.
pub open spec fn slots_at(fs: Seq<FieldView>, n: int, rules: Seq<RuleView>, ss: Seq<Seq<FieldView>>, dup: bool) -> bool {
    &&& rules.len() == ss.len()
    &&& forall|i: int| 0 <= i < rules.len() ==> slot_at(fs, n + flat(ss.take(i)).len(), #[trigger] rules[i], ss[i], dup)
}

/// The rules take back, one after the other, the slots written from
/// position `n`, after the fields before it were taken.
proof fn lemma_run_at(fs: Seq<FieldView>, n: int, rules: Seq<RuleView>, ss: Seq<Seq<FieldView>>, dup: bool)
    requires
        slots_at(fs, n, rules, ss, dup),
        fs.len() <= usize::MAX,
    ensures
        run_rules(map_from_pairs(positioned_pairs(fs)), taken_set(fs, n), dup, rules) == Ok::<(Seq<Seq<FieldView>>, Set<Consumed>), ErrView>((ss, taken_set(fs, n + flat(ss).len()))),
    decreases rules.len(),
{
    if rules.len() == 0 {
        assert(ss =~= Seq::<Seq<FieldView>>::empty());
    } else {
        let l = rules.len() - 1;
        let pr = rules.drop_last();
        let ps = ss.drop_last();
        assert forall|i: int| 0 <= i < pr.len() implies slot_at(fs, n + flat(ps.take(i)).len(), #[trigger] pr[i], ps[i], dup) by {
            assert(ps.take(i) =~= ss.take(i));
            assert(pr[i] == rules[i]);
        }
        lemma_run_at(fs, n, pr, ps, dup);
        assert(ss.take(l) =~= ps);
        assert(slot_at(fs, n + flat(ss.take(l)).len(), rules[l], ss[l], dup));
        lemma_step_at(fs, n + flat(ps).len(), rules[l], ss[l], dup);
        assert(rules.last() == rules[l]);
        assert(ps.push(ss[l]) =~= ss);
        assert(flat(ss) == flat(ps) + ss[l]);
    }
}

/// The fields of the items, item after item.
pub open spec fn items_text(items: Seq<Seq<Seq<FieldView>>>) -> Seq<FieldView>
    decreases items.len(),
{
    if items.len() == 0 {
        Seq::empty()
    } else {
        items_text(items.drop_last()) + flat(items.last())
    }
}

/// The fields of the items are those of the first item, then those of the
/// rest.
pub proof fn lemma_items_text_front(items: Seq<Seq<Seq<FieldView>>>)
    requires
        items.len() > 0,
    ensures
        items_text(items) == flat(items[0]) + items_text(items.drop_first()),
    decreases items.len(),
{
    if items.len() == 1 {
        assert(items.drop_last() =~= Seq::<Seq<Seq<FieldView>>>::empty());
        assert(items.drop_first() =~= Seq::<Seq<Seq<FieldView>>>::empty());
        assert(flat(items[0]) + Seq::<FieldView>::empty() =~= flat(items[0]));
        assert(Seq::<FieldView>::empty() + flat(items[0]) =~= flat(items[0]));
    } else {
        let p = items.drop_last();
        lemma_items_text_front(p);
        assert(p.drop_first() =~= items.drop_first().drop_last());
        assert(items.drop_first().last() == items.last());
        assert(p[0] == items[0]);
        assert(items_text(items) =~= flat(items[0]) + items_text(items.drop_first()));
    }
}

/// The items, written one after the other from position `n`, each come
/// back to the item rules; and after the last, no field starts another.
pub open spec fn items_at(
    fs: Seq<FieldView>,
    n: int,
    rules: Seq<RuleView>,
    items: Seq<Seq<Seq<FieldView>>>,
    start: Seq<char>,
) -> bool
    decreases items.len(),
{
    if items.len() == 0 {
        forall|k: int| n <= k < fs.len() ==> #[trigger] fs[k].0 != start
    } else {
        &&& slots_at(fs, n, rules, items[0], true)
        &&& items_at(fs, n + flat(items[0]).len(), rules, items.drop_first(), start)
    }
}

/// The first slot of an item stands at its start and holds one field, of
/// the tag that starts items.
proof fn lemma_item_head(fs: Seq<FieldView>, n: int, rules: Seq<RuleView>, item: Seq<Seq<FieldView>>, start: Seq<char>)
    requires
        slots_at(fs, n, rules, item, true),
        rules.len() > 0,
        rules[0] == RuleView::Mandatory(start),
    ensures
        0 <= n < fs.len(),
        fs[n].0 == start,
        flat(item).len() >= 1,
{
    assert(item.take(0) =~= Seq::<Seq<FieldView>>::empty());
    assert(slot_at(fs, n + flat(item.take(0)).len(), rules[0], item[0], true));
    assert(fs[n + 0] == item[0][0]);
    assert(accepted_tag(rules[0], item[0][0].0));
    crate::round_trip::lemma_slot_fields(item, 0);
}

/// There are at least as many fields of the starting tag from `n` on as
/// items written from `n`.
proof fn lemma_items_count(fs: Seq<FieldView>, n: int, rules: Seq<RuleView>, items: Seq<Seq<Seq<FieldView>>>, start: Seq<char>)
    requires
        items_at(fs, n, rules, items, start),
        rules.len() > 0,
        rules[0] == RuleView::Mandatory(start),
    ensures
        values_from(fs, start, n).len() >= items.len(),
    decreases items.len(),
{
    if items.len() > 0 {
        lemma_item_head(fs, n, rules, items[0], start);
        let n2 = n + flat(items[0]).len();
        lemma_items_count(fs, n2, rules, items.drop_first(), start);
        lemma_values_from_more(fs, start, n, n2);
    }
}

/// The item rules take back, item after item, the items written from
/// position `n`.
proof fn lemma_items_run(
    fs: Seq<FieldView>,
    n: int,
    rules: Seq<RuleView>,
    items: Seq<Seq<Seq<FieldView>>>,
    start: Seq<char>,
    fuel: nat,
)
    requires
        items_at(fs, n, rules, items, start),
        rules.len() > 0,
        rules[0] == RuleView::Mandatory(start),
        fuel >= items.len(),
        0 <= n,
        fs.len() <= usize::MAX,
    ensures
        run_items(map_from_pairs(positioned_pairs(fs)), taken_set(fs, n), start, rules, fuel) == Ok::<(Seq<Seq<Seq<FieldView>>>, Set<Consumed>), ErrView>((items, taken_set(fs, n + items_text(items).len()))),
    decreases items.len(),
{
    let m = map_from_pairs(positioned_pairs(fs));
    let c = taken_set(fs, n);
    lemma_map_groups(fs);
    lemma_taken_cond(fs, n, start);
    lemma_first_free(fs, start, c, n);
    if items.len() == 0 {
        assert(items =~= Seq::<Seq<Seq<FieldView>>>::empty());
        if fuel > 0 {
            assert(exact_hit(m, c, start) is None) by {
                if has_tag(fs, start) {
                    assert(map_get(m, start) == Some(values_tagged(fs, start)));
                    if first_available(c, start, values_tagged(fs, start)) is Some {
                        let j = first_available(c, start, values_tagged(fs, start))->0;
                        let q = values_tagged(fs, start)[j].1 as int;
                        assert(fs[q].0 == start);
                    }
                }
            }
        }
    } else {
        lemma_item_head(fs, n, rules, items[0], start);
        assert(has_tag(fs, start));
        assert(map_get(m, start) == Some(values_tagged(fs, start)));
        assert(exact_hit(m, c, start) is Some);
        lemma_run_at(fs, n, rules, items[0], true);
        let n2 = n + flat(items[0]).len();
        lemma_items_run(fs, n2, rules, items.drop_first(), start, (fuel - 1) as nat);
        lemma_items_text_front(items);
        assert(seq![items[0]] + items.drop_first() =~= items);
    }
}

/// The fields of a parsed message in writing order: header, items, trailer.
pub open spec fn parsed_text(p: ParsedView) -> Seq<FieldView> {
    flat(p.0) + items_text(p.1) + flat(p.2)
}

/// Each slot of the parsed message, written in order, comes back to its
/// rule: the header's, the items', the trailer's.
pub open spec fn sequential_parsed(l: LayoutView, p: ParsedView) -> bool {
    let fs = parsed_text(p);
    &&& slots_at(fs, 0, l.header, p.0, false)
    &&& items_at(fs, flat(p.0).len() as int, l.items, p.1, l.item_start)
    &&& slots_at(fs, (flat(p.0).len() + items_text(p.1).len()) as int, l.trailer, p.2, l.items.len() > 0)
}

/// Writing a message with repeated items, slot after slot, and parsing the
/// text again, gives back the same header, items and trailer: wherever each
/// slot comes back to its rule, and each field reads back as written.
pub proof fn lemma_sequential_layout_round_trip(l: LayoutView, p: ParsedView)
    requires
        l.items.len() > 0,
        l.items[0] == RuleView::Mandatory(l.item_start),
        sequential_parsed(l, p),
        writable_fields(parsed_text(p)),
        parsed_text(p).len() <= usize::MAX,
    ensures
        crate::message_parser::layout_outcome(mt_text(parsed_text(p)), l) == Ok::<ParsedView, ErrView>(p),
{
    let fs = parsed_text(p);
    let m = map_from_pairs(positioned_pairs(fs));
    let h = flat(p.0).len() as int;
    let it = items_text(p.1).len() as int;
    crate::round_trip::lemma_block4_round_trip(fs);
    lemma_run_at(fs, 0, l.header, p.0, false);
    assert(taken_set(fs, 0) =~= Set::<Consumed>::empty());
    lemma_items_count(fs, h, l.items, p.1, l.item_start);
    lemma_values_from_len(fs, l.item_start, h);
    lemma_map_groups(fs);
    assert(values_of(m, l.item_start).len() >= p.1.len()) by {
        if !has_tag(fs, l.item_start) {
            lemma_values_tagged_none(fs, l.item_start);
        }
    }
    lemma_items_run(fs, h, l.items, p.1, l.item_start, values_of(m, l.item_start).len());
    lemma_run_at(fs, h + it, l.trailer, p.2, l.items.len() > 0);
    let c = taken_set(fs, fs.len() as int);
    assert forall|g: int, x: int| 0 <= g < m.len() && 0 <= x < m[g].1.len() implies c.contains(
        (m[g].0, (#[trigger] m[g].1[x]).1),
    ) by {
        crate::round_trip::lemma_values_tagged_member(fs, m[g].0, x);
        let k = m[g].1[x].1 as int;
        assert(c.contains((fs[k].0, k as usize)));
    }
    crate::round_trip::lemma_nothing_left(m, c);
}

/// Writing a message of header slots only, slot after slot, and parsing
/// the text again, gives back the same slots: wherever each slot comes back
/// to its rule, and each field reads back as written.
pub proof fn lemma_sequential_header_round_trip(l: LayoutView, s: Seq<Seq<FieldView>>)
    requires
        l.items.len() == 0,
        l.trailer.len() == 0,
        slots_at(flat(s), 0, l.header, s, false),
        writable_fields(flat(s)),
        flat(s).len() <= usize::MAX,
    ensures
        crate::message_parser::layout_outcome(mt_text(flat(s)), l) == Ok::<ParsedView, ErrView>((
            s,
            Seq::<Seq<Seq<FieldView>>>::empty(),
            Seq::<Seq<FieldView>>::empty(),
        )),
{
    let fs = flat(s);
    let m = map_from_pairs(positioned_pairs(fs));
    crate::round_trip::lemma_block4_round_trip(fs);
    lemma_run_at(fs, 0, l.header, s, false);
    assert(taken_set(fs, 0) =~= Set::<Consumed>::empty());
    assert(l.trailer =~= Seq::<RuleView>::empty());
    lemma_map_groups(fs);
    let c = taken_set(fs, fs.len() as int);
    assert forall|g: int, x: int| 0 <= g < m.len() && 0 <= x < m[g].1.len() implies c.contains(
        (m[g].0, (#[trigger] m[g].1[x]).1),
    ) by {
        crate::round_trip::lemma_values_tagged_member(fs, m[g].0, x);
        let k = m[g].1[x].1 as int;
        assert(c.contains((fs[k].0, k as usize)));
    }
    crate::round_trip::lemma_nothing_left(m, c);
}

/// The fields of two runs of slots are those of the first, then those of
/// the second.
pub proof fn lemma_flat_concat(a: Seq<Seq<FieldView>>, b: Seq<Seq<FieldView>>)
    ensures
        flat(a + b) == flat(a) + flat(b),
    decreases b.len(),
{
    if b.len() == 0 {
        assert(a + b =~= a);
        assert(flat(a) + flat(b) =~= flat(a));
    } else {
        lemma_flat_concat(a, b.drop_last());
        assert((a + b).drop_last() =~= a + b.drop_last());
        assert((a + b).last() == b.last());
        assert(flat(a + b) =~= flat(a) + flat(b));
    }
}

/// Slots whose fields no other rule would look at come back, each to its
/// own rule, when written one after the other.
pub proof fn lemma_fitted_at(rules: Seq<RuleView>, s: Seq<Seq<FieldView>>)
    requires
        crate::round_trip::fitted_slots(rules, s),
        flat(s).len() <= usize::MAX,
    ensures
        slots_at(flat(s), 0, rules, s, false),
{
    let fs = flat(s);
    assert forall|i: int| 0 <= i < rules.len() implies slot_at(fs, (0 + flat(s.take(i)).len()) as int, #[trigger] rules[i], s[i], false) by {
        let n = crate::round_trip::slot_start(s, i);
        let e = n + s[i].len();
        crate::round_trip::lemma_slot_fields(s, i);
        assert(crate::message_parser::slot_fits(rules[i], s[i]));
        assert forall|k: int| e <= k < fs.len() implies later_ok(rules[i], s[i], #[trigger] fs[k].0) by {
            let j2 = crate::round_trip::lemma_slot_of(s, k);
            crate::round_trip::lemma_slot_fields(s, j2);
            if j2 <= i {
                crate::round_trip::lemma_start_mono(s, j2 + 1, i + 1);
            }
            let d = k - crate::round_trip::slot_start(s, j2);
            assert(fs[k] == s[j2][d]);
            assert(!in_family(rules[i], s[j2][d].0));
        }
        assert(rules[i] is Mandatory ==> forall|k: int| 0 <= k < n ==> #[trigger] fs[k].0 != rule_tag(rules[i])) by {
            if rules[i] is Mandatory {
                assert forall|k: int| 0 <= k < n implies #[trigger] fs[k].0 != rule_tag(rules[i]) by {
                    crate::round_trip::lemma_start_mono(s, i, s.len() as int);
                    let j2 = crate::round_trip::lemma_slot_of(s, k);
                    crate::round_trip::lemma_slot_fields(s, j2);
                    if j2 >= i {
                        crate::round_trip::lemma_start_mono(s, i, j2);
                    }
                    let d = k - crate::round_trip::slot_start(s, j2);
                    assert(fs[k] == s[j2][d]);
                    assert(!in_family(rules[i], s[j2][d].0));
                }
            }
        }
    }
}

} // verus!

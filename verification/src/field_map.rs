//! A map from field tags to the values found under them, each value with
//! its position in the message.  Tags are kept in the order in which they
//! were first inserted; each tag appears once.

use vstd::prelude::*;
use crate::text::{chars_eq, string_chars, to_chars};

verus! {

/// A value with its position, as the specifications see it.
pub type PosValue = (Seq<char>, usize);

/// A tag and its values, as the specifications see it.
pub type TagGroup = (Seq<char>, Seq<PosValue>);

/// The views of a vector of positioned values.
pub open spec fn pos_views(v: Seq<(String, usize)>) -> Seq<PosValue> {
    v.map_values(|e: (String, usize)| (e.0@, e.1))
}

/// Each tag appears once.
pub open spec fn distinct_tags(m: Seq<TagGroup>) -> bool {
    forall|i: int, j: int| 0 <= i < m.len() && 0 <= j < m.len() && i != j ==> m[i].0 != m[j].0
}

/// The index of the group of `tag`, if it has one.
pub open spec fn group_index(m: Seq<TagGroup>, tag: Seq<char>) -> Option<int>
    decreases m.len(),
{
    if m.len() == 0 {
        None
    } else if m.last().0 == tag {
        Some(m.len() - 1)
    } else {
        group_index(m.drop_last(), tag)
    }
}

/// The values under `tag`, if any.
pub open spec fn map_get(m: Seq<TagGroup>, tag: Seq<char>) -> Option<Seq<PosValue>> {
    match group_index(m, tag) {
        Some(i) => Some(m[i].1),
        None => None,
    }
}

/// `m` with `(value, pos)` added at the end of the values of `tag`; a new
/// tag goes at the end.
pub open spec fn map_insert(m: Seq<TagGroup>, tag: Seq<char>, value: PosValue) -> Seq<TagGroup> {
    match group_index(m, tag) {
        Some(i) => m.update(i, (tag, m[i].1.push(value))),
        None => m.push((tag, seq![value])),
    }
}

/// The map built by inserting the given `(tag, value)` pairs in order.
pub open spec fn map_from_pairs(pairs: Seq<(Seq<char>, PosValue)>) -> Seq<TagGroup>
    decreases pairs.len(),
{
    if pairs.len() == 0 {
        Seq::empty()
    } else {
        map_insert(map_from_pairs(pairs.drop_last()), pairs.last().0, pairs.last().1)
    }
}

pub proof fn lemma_group_index(m: Seq<TagGroup>, tag: Seq<char>)
    ensures
        group_index(m, tag) matches Some(i) ==> 0 <= i < m.len() && m[i].0 == tag,
        group_index(m, tag) is None ==> forall|i: int| 0 <= i < m.len() ==> m[i].0 != tag,
    decreases m.len(),
{
    if m.len() > 0 && m.last().0 != tag {
        lemma_group_index(m.drop_last(), tag);
        assert forall|i: int| 0 <= i < m.len() - 1 implies m[i] == m.drop_last()[i] by {}
    }
}

/// With distinct tags, the group of `tag` is the one whose tag it is.
pub proof fn lemma_group_index_unique(m: Seq<TagGroup>, tag: Seq<char>, i: int)
    requires
        distinct_tags(m),
        0 <= i < m.len(),
        m[i].0 == tag,
    ensures
        group_index(m, tag) == Some(i),
{
    lemma_group_index(m, tag);
}

pub proof fn lemma_map_insert_distinct(m: Seq<TagGroup>, tag: Seq<char>, value: PosValue)
    requires
        distinct_tags(m),
    ensures
        distinct_tags(map_insert(m, tag, value)),
        map_insert(m, tag, value).len() == m.len() + (if group_index(m, tag) is Some {
            0int
        } else {
            1int
        }),
{
    lemma_group_index(m, tag);
}

pub proof fn lemma_map_from_pairs_distinct(pairs: Seq<(Seq<char>, PosValue)>)
    ensures
        distinct_tags(map_from_pairs(pairs)),
    decreases pairs.len(),
{
    if pairs.len() > 0 {
        lemma_map_from_pairs_distinct(pairs.drop_last());
        lemma_map_insert_distinct(map_from_pairs(pairs.drop_last()), pairs.last().0, pairs.last().1);
    }
}

/// Map from field tags to positioned values
#[derive(Debug)]
pub struct FieldMap {
    entries: Vec<(String, Vec<(String, usize)>)>,
}

impl View for FieldMap {
    type V = Seq<TagGroup>;

    closed spec fn view(&self) -> Seq<TagGroup> {
        self.entries@.map_values(|g: (String, Vec<(String, usize)>)| (g.0@, pos_views(g.1@)))
    }
}

impl FieldMap {
    /// Each tag of the map appears once.
    #[verifier::type_invariant]
    pub open spec fn wf(&self) -> bool {
        distinct_tags(self@)
    }

    /// An empty map.
    pub fn new() -> (m: FieldMap)
        ensures
            m@ == Seq::<TagGroup>::empty(),
    {
        let m = FieldMap { entries: Vec::new() };
        assert(m@ =~= Seq::<TagGroup>::empty());
        m
    }

    /// The number of distinct tags.
    pub fn len(&self) -> (n: usize)
        ensures
            n == self@.len(),
    {
        self.entries.len()
    }

    /// No tag at all.
    pub fn is_empty(&self) -> (b: bool)
        ensures
            b == (self@.len() == 0),
    {
        self.entries.len() == 0
    }

    /// The position of the group of `tag` in the map.
    fn find_group(&self, tag: &Vec<char>) -> (r: Option<usize>)
        ensures
            match r {
                Some(i) => group_index(self@, tag@) == Some(i as int),
                None => group_index(self@, tag@) is None,
            },
    {
        proof {
            use_type_invariant(self);
        }
        let mut i: usize = 0;
        while i < self.entries.len()
            invariant
                i <= self.entries.len(),
                self@.len() == self.entries.len(),
                distinct_tags(self@),
                forall|j: int| 0 <= j < i ==> self@[j].0 != tag@,
            decreases self.entries.len() - i,
        {
            let k = string_chars(&self.entries[i].0);
            assert(self@[i as int].0 == self.entries@[i as int].0@);
            if chars_eq(&k, tag) {
                proof {
                    lemma_group_index_unique(self@, tag@, i as int);
                }
                return Some(i);
            }
            i = i + 1;
        }
        proof {
            lemma_group_index(self@, tag@);
            if group_index(self@, tag@) is Some {
                let j = group_index(self@, tag@)->0;
                assert(self@[j].0 == tag@);
            }
        }
        None
    }

    /// The values under `tag`.
    pub fn get(&self, tag: &str) -> (r: Option<&Vec<(String, usize)>>)
        ensures
            match r {
                Some(v) => map_get(self@, tag@) == Some(pos_views(v@)),
                None => map_get(self@, tag@) is None,
            },
    {
        let t = to_chars(tag);
        self.get_chars(&t)
    }

    /// The values under `tag`, given as characters.
    pub fn get_chars(&self, tag: &Vec<char>) -> (r: Option<&Vec<(String, usize)>>)
        ensures
            match r {
                Some(v) => map_get(self@, tag@) == Some(pos_views(v@)),
                None => map_get(self@, tag@) is None,
            },
    {
        match self.find_group(tag) {
            Some(i) => {
                proof {
                    lemma_group_index(self@, tag@);
                }
                assert(self@.len() == self.entries@.len());
                assert(self@[i as int].1 == pos_views(self.entries@[i as int].1@));
                Some(&self.entries[i].1)
            },
            None => None,
        }
    }

    /// The map has values under `tag`.
    pub fn contains_key(&self, tag: &str) -> (b: bool)
        ensures
            b == (map_get(self@, tag@) is Some),
    {
        self.get(tag).is_some()
    }

    /// The values under `tag`, without their positions.
    pub fn values(&self, tag: &str) -> (r: Option<Vec<String>>)
        ensures
            match r {
                Some(v) => map_get(self@, tag@) matches Some(g) && v@.len() == g.len() && forall|
                    i: int,
                | 0 <= i < g.len() ==> #[trigger] v@[i]@ == g[i].0,
                None => map_get(self@, tag@) is None,
            },
    {
        match self.get(tag) {
            Some(g) => {
                let mut out: Vec<String> = Vec::new();
                let mut i: usize = 0;
                while i < g.len()
                    invariant
                        i <= g.len(),
                        out@.len() == i,
                        forall|j: int| 0 <= j < i ==> #[trigger] out@[j]@ == g@[j].0@,
                    decreases g.len() - i,
                {
                    out.push(g[i].0.clone());
                    i = i + 1;
                }
                Some(out)
            },
            None => None,
        }
    }

    /// The tag at index `i` of the map, with its values.
    pub fn group(&self, i: usize) -> (r: (&String, &Vec<(String, usize)>))
        requires
            i < self@.len(),
        ensures
            r.0@ == self@[i as int].0,
            pos_views(r.1@) == self@[i as int].1,
    {
        (&self.entries[i].0, &self.entries[i].1)
    }

    /// Adds `(value, pos)` at the end of the values of `tag`.
    pub fn insert(&mut self, tag: &Vec<char>, value: String, pos: usize)
        ensures
            final(self)@ == map_insert(old(self)@, tag@, (value@, pos)),
    {
        proof {
            use_type_invariant(&*self);
        }
        let ghost old_view = self@;
        match self.find_group(tag) {
            Some(i) => {
                let mut entries: Vec<(String, Vec<(String, usize)>)> = Vec::new();
                std::mem::swap(&mut entries, &mut self.entries);
                proof {
                    lemma_group_index(old_view, tag@);
                }
                assert(old_view.len() == entries@.len());
                assert(old_view[i as int].1 == pos_views(entries@[i as int].1@));
                let (key, mut group) = entries.remove(i);
                let ghost gv = old_view[i as int].1;
                assert(pos_views(group@) == gv);
                group.push((value, pos));
                assert(pos_views(group@) =~= gv.push((value@, pos)));
                entries.insert(i, (key, group));
                proof {
                    lemma_group_index(old_view, tag@);
                    let nv = entries@.map_values(
                        |g: (String, Vec<(String, usize)>)| (g.0@, pos_views(g.1@)),
                    );
                    assert(nv =~= old_view.update(i as int, (tag@, gv.push((value@, pos)))));
                    lemma_map_insert_distinct(old_view, tag@, (value@, pos));
                }
                *self = FieldMap { entries };
            },
            None => {
                let key = crate::text::from_chars(tag);
                let mut group: Vec<(String, usize)> = Vec::new();
                group.push((value, pos));
                assert(pos_views(group@) =~= seq![(value@, pos)]);
                let mut entries: Vec<(String, Vec<(String, usize)>)> = Vec::new();
                std::mem::swap(&mut entries, &mut self.entries);
                entries.push((key, group));
                proof {
                    let nv = entries@.map_values(
                        |g: (String, Vec<(String, usize)>)| (g.0@, pos_views(g.1@)),
                    );
                    assert(nv =~= old_view.push((tag@, seq![(value@, pos)])));
                    lemma_map_insert_distinct(old_view, tag@, (value@, pos));
                }
                *self = FieldMap { entries };
            },
        }
    }
}

} // verus!

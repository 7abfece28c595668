//! Node attributes: named values in the order in which they travel.

use vstd::prelude::*;

use crate::bytes::{
    is_same_text, is_text_before, lemma_text_before_total, lemma_text_before_transitive,
    text_before,
};
use crate::isa::T;

verus! {

/// An attribute value. A float is held by its IEEE 754 bits.
#[derive(Clone, Debug, PartialEq, Eq)]
pub enum Val {
    Bool(bool),
    Int(i64),
    Float(u64),
    Text(String),
    Ternary(T),
}

/// The mathematical content of a [`Val`].
pub enum ValView {
    Bool(bool),
    Int(i64),
    Float(u64),
    Text(Seq<char>),
    Ternary(T),
}

impl View for Val {
    type V = ValView;

    open spec fn view(&self) -> ValView {
        match self {
            Val::Bool(b) => ValView::Bool(*b),
            Val::Int(i) => ValView::Int(*i),
            Val::Float(bits) => ValView::Float(*bits),
            Val::Text(s) => ValView::Text(s@),
            Val::Ternary(t) => ValView::Ternary(*t),
        }
    }
}

/// The bits are those of a NaN: all exponent bits set and some mantissa bit set.
#[verifier::allow_in_spec]
pub fn is_nan_bits(bits: u64) -> bool
    returns
        bits & 0x7FFF_FFFF_FFFF_FFFF > 0x7FF0_0000_0000_0000,
{
    bits & 0x7FFF_FFFF_FFFF_FFFF > 0x7FF0_0000_0000_0000
}

/// The bits in canonical form: every NaN is the quiet NaN with no payload.
#[verifier::allow_in_spec]
pub fn canonical_float(bits: u64) -> u64
    returns
        (if is_nan_bits(bits) { 0x7FF8_0000_0000_0000u64 } else { bits }),
{
    if is_nan_bits(bits) {
        0x7FF8_0000_0000_0000
    } else {
        bits
    }
}

/// The entries come in strictly ascending order of their keys' bytes.
pub open spec fn keys_ascending(entries: Seq<(Seq<char>, ValView)>) -> bool {
    forall|i: int, j: int|
        0 <= i < j < entries.len() ==> text_before(#[trigger] entries[i].0, #[trigger] entries[j].0)
}

/// The entries after `key` was given `val`: an entry of that key is replaced, another is put
/// in its place in the order.
pub open spec fn with_attr(
    entries: Seq<(Seq<char>, ValView)>,
    key: Seq<char>,
    val: ValView,
) -> Seq<(Seq<char>, ValView)>
    decreases entries.len(),
{
    if entries.len() == 0 || text_before(entries.last().0, key) {
        entries.push((key, val))
    } else if entries.last().0 == key {
        entries.drop_last().push((key, val))
    } else {
        with_attr(entries.drop_last(), key, val).push(entries.last())
    }
}

/// The value under `key`.
pub open spec fn attr_at(entries: Seq<(Seq<char>, ValView)>, key: Seq<char>) -> Option<ValView>
    decreases entries.len(),
{
    if entries.len() == 0 {
        None
    } else if entries.last().0 == key {
        Some(entries.last().1)
    } else {
        attr_at(entries.drop_last(), key)
    }
}

/// The entries stay in key order.
pub proof fn lemma_with_attr_keys(entries: Seq<(Seq<char>, ValView)>, key: Seq<char>, val: ValView)
    requires
        keys_ascending(entries),
    ensures
        keys_ascending(with_attr(entries, key, val)),
        with_attr(entries, key, val).len() > 0,
        forall|k: Seq<char>|
            (forall|i: int| 0 <= i < entries.len() ==> text_before(#[trigger] entries[i].0, k))
                && text_before(key, k) ==> forall|i: int|
                0 <= i < with_attr(entries, key, val).len() ==> text_before(
                    #[trigger] with_attr(entries, key, val)[i].0,
                    k,
                ),
    decreases entries.len(),
{
    if entries.len() > 0 {
        let last = entries.last();
        lemma_text_before_total(last.0, key);
        let init = entries.drop_last();
        assert forall|i: int| 0 <= i < init.len() implies text_before(#[trigger] init[i].0, last.0) by {
            assert(text_before(entries[i].0, entries[entries.len() - 1].0));
        }
        assert(keys_ascending(init)) by {
            assert forall|i: int, j: int| 0 <= i < j < init.len() implies text_before(
                #[trigger] init[i].0,
                #[trigger] init[j].0,
            ) by {
                assert(text_before(entries[i].0, entries[j].0));
            }
        }
        if text_before(last.0, key) {
            assert forall|i: int| 0 <= i < entries.len() implies text_before(#[trigger] entries[i].0, key) by {
                if i < init.len() {
                    assert(text_before(init[i].0, last.0));
                    lemma_text_before_transitive(entries[i].0, last.0, key);
                }
            }
        } else if last.0 != key {
            lemma_with_attr_keys(init, key, val);
            let placed = with_attr(init, key, val);
            assert forall|k: Seq<char>|
                (forall|i: int| 0 <= i < entries.len() ==> text_before(#[trigger] entries[i].0, k))
                    && text_before(key, k) implies forall|i: int|
                0 <= i < with_attr(entries, key, val).len() ==> text_before(
                    #[trigger] with_attr(entries, key, val)[i].0,
                    k,
                ) by {
                assert forall|i: int| 0 <= i < init.len() implies text_before(#[trigger] init[i].0, k) by {
                    assert(text_before(entries[i].0, k));
                }
                assert(text_before(entries[entries.len() - 1].0, k));
            }
        } else {
            assert forall|k: Seq<char>|
                (forall|i: int| 0 <= i < entries.len() ==> text_before(#[trigger] entries[i].0, k))
                    && text_before(key, k) implies forall|i: int|
                0 <= i < with_attr(entries, key, val).len() ==> text_before(
                    #[trigger] with_attr(entries, key, val)[i].0,
                    k,
                ) by {
                assert forall|i: int| 0 <= i < with_attr(entries, key, val).len() implies text_before(
                    #[trigger] with_attr(entries, key, val)[i].0,
                    k,
                ) by {
                    assert(text_before(entries[i].0, k));
                }
            }
        }
    }
}

/// What holds of every entry and of the new one holds of every entry after it was set.
pub proof fn lemma_with_attr_every(
    entries: Seq<(Seq<char>, ValView)>,
    key: Seq<char>,
    val: ValView,
    holds: spec_fn((Seq<char>, ValView)) -> bool,
)
    requires
        forall|i: int| 0 <= i < entries.len() ==> holds(#[trigger] entries[i]),
        holds((key, val)),
    ensures
        forall|i: int|
            0 <= i < with_attr(entries, key, val).len() ==> holds(
                #[trigger] with_attr(entries, key, val)[i],
            ),
        with_attr(entries, key, val).len() <= entries.len() + 1,
    decreases entries.len(),
{
    if !(entries.len() == 0 || text_before(entries.last().0, key) || entries.last().0 == key) {
        let init = entries.drop_last();
        assert forall|i: int| 0 <= i < init.len() implies holds(#[trigger] init[i]) by {
            assert(holds(entries[i]));
        }
        lemma_with_attr_every(init, key, val, holds);
        assert(holds(entries[entries.len() - 1]));
    }
}

/// Setting an attribute changes that attribute and no other.
pub proof fn law_setting_changes_one_attribute(
    entries: Seq<(Seq<char>, ValView)>,
    key: Seq<char>,
    val: ValView,
    other: Seq<char>,
)
    requires
        keys_ascending(entries),
    ensures
        attr_at(with_attr(entries, key, val), other) == if other == key {
            Some(val)
        } else {
            attr_at(entries, other)
        },
    decreases entries.len(),
{
    let after = with_attr(entries, key, val);
    if entries.len() == 0 || text_before(entries.last().0, key) {
        assert(after.drop_last() =~= entries);
    } else if entries.last().0 == key {
        assert(after.drop_last() =~= entries.drop_last());
    } else {
        assert(keys_ascending(entries.drop_last())) by {
            assert forall|i: int, j: int| 0 <= i < j < entries.len() - 1 implies text_before(
                #[trigger] entries.drop_last()[i].0,
                #[trigger] entries.drop_last()[j].0,
            ) by {
                assert(text_before(entries[i].0, entries[j].0));
            }
        }
        law_setting_changes_one_attribute(entries.drop_last(), key, val, other);
        assert(after.drop_last() =~= with_attr(entries.drop_last(), key, val));
    }
}

/// A key after all others is put at the end.
pub proof fn lemma_with_attr_appends(
    entries: Seq<(Seq<char>, ValView)>,
    key: Seq<char>,
    val: ValView,
)
    requires
        forall|i: int| 0 <= i < entries.len() ==> text_before(#[trigger] entries[i].0, key),
    ensures
        with_attr(entries, key, val) == entries.push((key, val)),
{
    if entries.len() > 0 {
        assert(text_before(entries[entries.len() - 1].0, key));
    }
}

/// The attributes of a node, at most one value for each key.
#[derive(Clone, Debug, PartialEq, Eq)]
pub struct Attrs {
    entries: Vec<(String, Val)>,
}

impl View for Attrs {
    type V = Seq<(Seq<char>, ValView)>;

    closed spec fn view(&self) -> Seq<(Seq<char>, ValView)> {
        self.entries@.map_values(|e: (String, Val)| (e.0@, e.1@))
    }
}

impl Attrs {
    pub open spec fn wf(&self) -> bool {
        keys_ascending(self@)
    }

    pub fn new() -> (attrs: Attrs)
        ensures
            attrs.wf(),
            attrs@ == Seq::<(Seq<char>, ValView)>::empty(),
    {
        let attrs = Attrs { entries: Vec::new() };
        assert(attrs@ =~= Seq::<(Seq<char>, ValView)>::empty());
        attrs
    }

    /// Gives the attribute `key` the value `val`, in place of the one that it had.
    pub fn set(&mut self, key: String, val: Val)
        requires
            old(self).wf(),
        ensures
            final(self).wf(),
            final(self)@ == with_attr(old(self)@, key@, val@),
    {
        let ghost start = self@;
        let mut at: usize = self.entries.len();
        assert(start.subrange(0, at as int) =~= start);
        assert(start.subrange(at as int, start.len() as int) =~= Seq::empty());
        assert(with_attr(start, key@, val@) =~= with_attr(start.subrange(0, at as int), key@, val@)
            + start.subrange(at as int, start.len() as int));
        while at > 0 && is_text_before(key.as_str(), self.entries[at - 1].0.as_str())
            invariant
                start == self@,
                keys_ascending(start),
                at <= self.entries@.len() == start.len(),
                with_attr(start, key@, val@) == with_attr(start.subrange(0, at as int), key@, val@)
                    + start.subrange(at as int, start.len() as int),
            decreases at,
        {
            proof {
                let head = start.subrange(0, at as int);
                assert(head.last() == start[at - 1]);
                assert(head.last().0 == self.entries@[at - 1].0@);
                lemma_text_before_total(head.last().0, key@);
                assert(head.drop_last() =~= start.subrange(0, at - 1));
                assert(with_attr(head, key@, val@) + start.subrange(at as int, start.len() as int)
                    =~= with_attr(start.subrange(0, at - 1), key@, val@)
                    + start.subrange(at - 1, start.len() as int));
            }
            at = at - 1;
        }
        let ghost head = start.subrange(0, at as int);
        let ghost tail = start.subrange(at as int, start.len() as int);
        let ghost entry = (key@, val@);
        proof {
            lemma_with_attr_keys(start, key@, val@);
            if at > 0 {
                assert(head.last() == start[at - 1]);
                assert(head.last().0 == self.entries@[at - 1].0@);
                lemma_text_before_total(head.last().0, key@);
            }
        }
        if at > 0 && self.entries[at - 1].0 == key {
            self.entries[at - 1] = (key, val);
            assert(self@ =~= head.drop_last().push(entry) + tail);
        } else {
            self.entries.insert(at, (key, val));
            assert(self@ =~= head.push(entry) + tail);
        }
    }

    /// The value of the attribute `key`.
    pub fn get(&self, key: &str) -> (val: Option<&Val>)
        ensures
            val is Some == attr_at(self@, key@) is Some,
            val is Some ==> attr_at(self@, key@) == Some(val->0@),
    {
        let mut at: usize = self.entries.len();
        assert(self@.subrange(0, at as int) =~= self@);
        while at > 0
            invariant
                at <= self.entries@.len() == self@.len(),
                attr_at(self@, key@) == attr_at(self@.subrange(0, at as int), key@),
            decreases at,
        {
            let ghost head = self@.subrange(0, at as int);
            assert(head.last() == (self.entries@[at - 1].0@, self.entries@[at - 1].1@));
            assert(head.drop_last() =~= self@.subrange(0, at - 1));
            at = at - 1;
            if is_same_text(self.entries[at].0.as_str(), key) {
                return Some(&self.entries[at].1);
            }
        }
        None
    }

    pub fn len(&self) -> (n: usize)
        ensures
            n == self@.len(),
    {
        self.entries.len()
    }

    /// The `index`-th attribute in key order.
    pub fn entry(&self, index: usize) -> (entry: (&str, &Val))
        requires
            index < self@.len(),
        ensures
            entry.0@ == self@[index as int].0,
            entry.1@ == self@[index as int].1,
    {
        (self.entries[index].0.as_str(), &self.entries[index].1)
    }
}

} // verus!

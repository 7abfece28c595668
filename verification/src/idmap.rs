//! Maps from identifiers to values, on top of `FxHashMap`.
//!
//! What is known of a `HashMap` in general is known only for hashers that are known to be
//! consistent, and nothing makes that known of the Fx hasher. So the few operations that are
//! needed are stated here, for maps from `u128`, and everything else is built on them.

use rustc_hash::FxHashMap;
use std::collections::hash_map::Keys;
use vstd::prelude::*;
use vstd::std_specs::iter::IteratorSpec;

verus! {

/// The hasher builder behind every map of this crate.
#[verifier::external_type_specification]
#[verifier::external_body]
pub struct ExFxBuildHasher(rustc_hash::FxBuildHasher);

/// `rustc_hash::FxHashMap::default`: the map is empty.
#[verifier::external_body]
fn fx_map<V>() -> (m: FxHashMap<u128, V>)
    ensures
        m@.is_empty(),
{
    FxHashMap::default()
}

/// `HashMap::insert` on an `FxHashMap`: `key` leads to `value` from now on, every other entry
/// stays, and the value that `key` led to before is handed back.
#[verifier::external_body]
fn fx_insert<V>(m: &mut FxHashMap<u128, V>, key: u128, value: V) -> (previous: Option<V>)
    ensures
        final(m)@ == old(m)@.insert(key, value),
        previous == (if old(m)@.contains_key(key) { Some(old(m)@[key]) } else { None }),
{
    m.insert(key, value)
}

/// `HashMap::remove` on an `FxHashMap`: the entry under `key` leaves and is handed back, every
/// other entry stays.
#[verifier::external_body]
fn fx_remove<V>(m: &mut FxHashMap<u128, V>, key: &u128) -> (removed: Option<V>)
    ensures
        final(m)@ == old(m)@.remove(*key),
        removed == (if old(m)@.contains_key(*key) { Some(old(m)@[*key]) } else { None }),
{
    m.remove(key)
}

/// `HashMap::get` on an `FxHashMap`: the value under `key`, if there is one.
#[verifier::external_body]
fn fx_get<'a, V>(m: &'a FxHashMap<u128, V>, key: &u128) -> (value: Option<&'a V>)
    ensures
        value == (if m@.contains_key(*key) { Some(&m@[*key]) } else { None }),
{
    m.get(key)
}

/// `HashMap::keys` on an `FxHashMap`: an iterator that gives each key of the map once and
/// then ends. Nothing is said of the order.
#[verifier::external_body]
fn fx_keys<'a, V>(m: &'a FxHashMap<u128, V>) -> (keys: Keys<'a, u128, V>)
    ensures
        keys.remaining().no_duplicates(),
        keys.remaining().unref().to_set() == m@.dom(),
        keys.decrease() is Some,
        keys.initial_value_relation(&keys),
{
    m.keys()
}

/// `HashMap::get_mut`: a reference to the entry under `key`, through which that entry and
/// no other can be changed.
#[verifier::external_body]
fn fx_get_mut<'a, V>(m: &'a mut FxHashMap<u128, V>, key: &u128) -> (r: Option<&'a mut V>)
    ensures
        match r {
            Some(v) => {
                &&& old(m)@.contains_key(*key)
                &&& *v == old(m)@[*key]
                &&& final(m)@ == old(m)@.insert(*key, *final(v))
            },
            None => {
                &&& !old(m)@.contains_key(*key)
                &&& final(m)@ == old(m)@
            },
        },
{
    m.get_mut(key)
}

/// A value that names an entry of an [`IdMap`]: an identifier with a number of its own.
pub trait Key: Copy {
    /// The number of the identifier.
    spec fn code(self) -> u128;

    /// The number of the identifier, at run time.
    fn to_code(self) -> (code: u128)
        ensures
            code == self.code(),
    ;

    /// The identifier that has this number, if there is one.
    fn from_code(code: u128) -> (key: Option<Self>)
        ensures
            match key {
                Some(k) => k.code() == code,
                None => forall|k: Self| #[trigger] k.code() != code,
            },
    ;

    /// No two identifiers share a number.
    proof fn code_injective(a: Self, b: Self)
        requires
            a.code() == b.code(),
        ensures
            a == b,
    ;
}

/// The identifiers come in strictly ascending order of their numbers.
pub open spec fn ascending<K: Key>(keys: Seq<K>) -> bool {
    forall|i: int, j: int| 0 <= i < j < keys.len() ==> keys[i].code() < keys[j].code()
}

/// The members of a finite set of identifiers in ascending order.
pub open spec fn sorted_keys<K: Key>(keys: Set<K>) -> Seq<K> {
    choose|s: Seq<K>| ascending(s) && s.to_set() == keys
}

/// There is one ascending sequence of a set's members.
pub proof fn lemma_sorted_keys<K: Key>(keys: Seq<K>, members: Set<K>)
    requires
        ascending(keys),
        keys.to_set() == members,
    ensures
        sorted_keys(members) == keys,
{
    lemma_ascending_unique(keys, sorted_keys(members));
}

proof fn lemma_ascending_unique<K: Key>(a: Seq<K>, b: Seq<K>)
    requires
        ascending(a),
        ascending(b),
        a.to_set() == b.to_set(),
    ensures
        a == b,
    decreases a.len(),
{
    assert forall|i: int| 0 <= i < a.len() implies b.contains(a[i]) by {
        assert(a.to_set().contains(a[i]));
    }
    assert forall|i: int| 0 <= i < b.len() implies a.contains(b[i]) by {
        assert(b.to_set().contains(b[i]));
    }
    if a.len() == 0 {
        if b.len() > 0 {
            assert(a.contains(b[0]));
        }
        assert(a =~= b);
    } else {
        assert(b.contains(a[0]));
        let j = choose|j: int| 0 <= j < b.len() && b[j] == a.last();
        let i = choose|i: int| 0 <= i < a.len() && a[i] == b.last();
        assert(b.contains(a.last()));
        assert(a.contains(b.last()));
        if i < a.len() - 1 {
            assert(a[i].code() < a.last().code());
            assert(b[j].code() <= b.last().code());
        }
        assert(a.last() == b.last());
        let a0 = a.drop_last();
        let b0 = b.drop_last();
        assert forall|k: K| a0.to_set().contains(k) <==> b0.to_set().contains(k) by {
            if a0.to_set().contains(k) {
                let x = choose|x: int| 0 <= x < a0.len() && a0[x] == k;
                assert(a[x].code() < a.last().code());
                assert(b.contains(a[x]));
                let y = choose|y: int| 0 <= y < b.len() && b[y] == k;
                assert(b0[y] == k);
            }
            if b0.to_set().contains(k) {
                let x = choose|x: int| 0 <= x < b0.len() && b0[x] == k;
                assert(b[x].code() < b.last().code());
                assert(a.contains(b[x]));
                let y = choose|y: int| 0 <= y < a.len() && a[y] == k;
                assert(a0[y] == k);
            }
        }
        assert(a0.to_set() =~= b0.to_set());
        lemma_ascending_unique(a0, b0);
        assert(a =~= a0.push(a.last()));
        assert(b =~= b0.push(b.last()));
    }
}

/// A finite set has an ascending sequence of its members, with as many entries as the set has
/// members.
pub proof fn lemma_sorted_keys_exist<K: Key>(members: Set<K>)
    requires
        members.finite(),
    ensures
        ascending(sorted_keys(members)),
        sorted_keys(members).to_set() == members,
        sorted_keys(members).len() == members.len(),
{
    let s = lemma_enumerate(members);
    assert(ascending(s) && s.to_set() == members);
    let keys = sorted_keys(members);
    assert forall|i: int, j: int| 0 <= i < keys.len() && 0 <= j < keys.len() && i != j implies keys[i]
        != keys[j] by {
        assert(if i < j {
            keys[i].code() < keys[j].code()
        } else {
            keys[j].code() < keys[i].code()
        });
    }
    keys.unique_seq_to_set();
}

proof fn lemma_enumerate<K: Key>(members: Set<K>) -> (s: Seq<K>)
    requires
        members.finite(),
    ensures
        ascending(s),
        s.to_set() == members,
    decreases members.len(),
{
    if members.len() == 0 {
        let s = Seq::<K>::empty();
        assert(s.to_set() =~= members);
        s
    } else {
        let x = members.choose();
        let rest = lemma_enumerate(members.remove(x));
        assert(!rest.contains(x)) by {
            if rest.contains(x) {
                assert(rest.to_set().contains(x));
            }
        }
        let s = lemma_place(rest, x);
        assert(s.to_set() =~= members);
        s
    }
}

proof fn lemma_place<K: Key>(keys: Seq<K>, x: K) -> (s: Seq<K>)
    requires
        ascending(keys),
        !keys.contains(x),
    ensures
        ascending(s),
        s.to_set() == keys.to_set().insert(x),
    decreases keys.len(),
{
    if keys.len() == 0 || keys.last().code() < x.code() {
        let s = keys.push(x);
        assert forall|i: int, j: int| 0 <= i < j < s.len() implies s[i].code() < s[j].code() by {
            if j == keys.len() && i < keys.len() - 1 {
                assert(keys[i].code() < keys[keys.len() - 1].code());
            }
        }
        lemma_to_set_push(keys, x);
        s
    } else {
        let last = keys.last();
        let init = keys.drop_last();
        assert(keys =~= init.push(last));
        if x.code() == last.code() {
            K::code_injective(x, last);
            assert(keys[keys.len() - 1] == x);
        }
        assert(!init.contains(x)) by {
            if init.contains(x) {
                let i = choose|i: int| 0 <= i < init.len() && init[i] == x;
                assert(keys[i] == x);
            }
        }
        let t = lemma_place(init, x);
        let s = t.push(last);
        assert forall|i: int, j: int| 0 <= i < j < s.len() implies s[i].code() < s[j].code() by {
            if j == t.len() {
                assert(t.to_set().contains(t[i]));
                if t[i] != x {
                    assert(init.to_set().contains(t[i]));
                    let k = choose|k: int| 0 <= k < init.len() && init[k] == t[i];
                    assert(keys[k].code() < keys[keys.len() - 1].code());
                }
            }
        }
        lemma_to_set_push(t, last);
        lemma_to_set_push(init, last);
        assert(s.to_set() =~= keys.to_set().insert(x));
        s
    }
}

proof fn lemma_to_set_push<K>(s: Seq<K>, x: K)
    ensures
        s.push(x).to_set() == s.to_set().insert(x),
{
    assert forall|k: K| s.push(x).to_set().contains(k) <==> s.to_set().insert(x).contains(k) by {
        if s.contains(k) {
            let i = choose|i: int| 0 <= i < s.len() && s[i] == k;
            assert(s.push(x)[i] == k);
        }
        assert(s.push(x)[s.len() as int] == x);
        if s.push(x).contains(k) {
            let i = choose|i: int| 0 <= i < s.push(x).len() && s.push(x)[i] == k;
            if i < s.len() {
                assert(s[i] == k);
            }
        }
    }
    assert(s.push(x).to_set() =~= s.to_set().insert(x));
}

fn insert_sorted<K: Key>(keys: &mut Vec<K>, key: K)
    requires
        ascending(old(keys)@),
        !old(keys)@.contains(key),
    ensures
        ascending(final(keys)@),
        final(keys)@.to_set() == old(keys)@.to_set().insert(key),
{
    let code: u128 = key.to_code();
    let mut at: usize = 0;
    while at < keys.len() && keys[at].to_code() < code
        invariant
            at <= keys.len(),
            code == key.code(),
            forall|i: int| 0 <= i < at ==> keys@[i].code() < code,
        decreases keys.len() - at,
    {
        at = at + 1;
    }
    let ghost before = keys@;
    proof {
        if at < keys.len() && keys@[at as int].code() == code {
            K::code_injective(keys@[at as int], key);
            assert(keys@.contains(key));
        }
        assert forall|i: int| at <= i < keys.len() implies keys@[i].code() > code by {
            if at < i {
                assert(keys@[at as int].code() < keys@[i].code());
            }
        }
    }
    keys.insert(at, key);
    proof {
        let after = keys@;
        assert forall|k: K| after.to_set().contains(k) <==> before.to_set().insert(key).contains(k) by {
            if after.contains(k) {
                let i = choose|i: int| 0 <= i < after.len() && after[i] == k;
                if i < at {
                    assert(before[i] == k);
                } else if i > at {
                    assert(before[i - 1] == k);
                }
            }
            if before.contains(k) {
                let i = choose|i: int| 0 <= i < before.len() && before[i] == k;
                if i < at {
                    assert(after[i] == k);
                } else {
                    assert(after[i + 1] == k);
                }
            }
            assert(after[at as int] == key);
        }
        assert(after.to_set() =~= before.to_set().insert(key));
    }
}

/// A hash map from identifiers to values.
#[derive(Debug)]
#[verifier::reject_recursive_types(K)]
pub struct IdMap<K: Key, V> {
    entries: FxHashMap<u128, V>,
    key: std::marker::PhantomData<K>,
}

/// What a map from numbers holds, under the identifiers that have those numbers.
spec fn by_identifier<K: Key, V>(m: Map<u128, V>) -> Map<K, V> {
    Map::new(|k: K| m.contains_key(k.code()), |k: K| m[k.code()])
}

impl<K: Key, V> View for IdMap<K, V> {
    type V = Map<K, V>;

    closed spec fn view(&self) -> Map<K, V> {
        by_identifier(self.entries@)
    }
}

impl<K: Key, V> Default for IdMap<K, V> {
    fn default() -> (m: Self)
        ensures
            m@ == Map::<K, V>::empty(),
    {
        IdMap::new()
    }
}

impl<K: Key, V: Clone> Clone for IdMap<K, V> {
    /// The same identifiers lead to clones of the same values.
    fn clone(&self) -> (m: Self)
        ensures
            m@.dom() == self@.dom(),
            forall|k: K| #[trigger] self@.contains_key(k) ==> cloned(self@[k], m@[k]),
    {
        IdMap { entries: self.entries.clone(), key: std::marker::PhantomData }
    }
}

impl<K: Key, V> IdMap<K, V> {
    pub fn new() -> (m: Self)
        ensures
            m@ == Map::<K, V>::empty(),
    {
        let m = IdMap { entries: fx_map(), key: std::marker::PhantomData };
        assert(m@ =~= Map::<K, V>::empty());
        m
    }

    pub fn insert(&mut self, key: K, value: V) -> (previous: Option<V>)
        ensures
            final(self)@ == old(self)@.insert(key, value),
            previous == (if old(self)@.contains_key(key) { Some(old(self)@[key]) } else { None }),
    {
        let code: u128 = key.to_code();
        let ghost before = self.entries@;
        let previous = fx_insert(&mut self.entries, code, value);
        proof {
            assert forall|k: K| k.code() == code implies k == key by {
                K::code_injective(k, key);
            }
            assert(self@ =~= old(self)@.insert(key, value));
        }
        previous
    }

    pub fn get(&self, key: &K) -> (value: Option<&V>)
        ensures
            value == (if self@.contains_key(*key) { Some(&self@[*key]) } else { None }),
    {
        fx_get(&self.entries, &key.to_code())
    }

    pub fn contains_key(&self, key: &K) -> (found: bool)
        ensures
            found == self@.contains_key(*key),
    {
        fx_get(&self.entries, &key.to_code()).is_some()
    }

    pub fn get_mut(&mut self, key: &K) -> (value: Option<&mut V>)
        ensures
            match value {
                Some(v) => {
                    &&& old(self)@.contains_key(*key)
                    &&& *v == old(self)@[*key]
                    &&& final(self)@ == old(self)@.insert(*key, *final(v))
                },
                None => {
                    &&& !old(self)@.contains_key(*key)
                    &&& final(self)@ == old(self)@
                },
            },
    {
        let code: u128 = key.to_code();
        proof {
            assert forall|v: V| by_identifier::<K, V>(#[trigger] self.entries@.insert(code, v)) == self@.insert(*key, v) by {
                assert forall|k: K| k.code() == code implies k == *key by {
                    K::code_injective(k, *key);
                }
                assert(by_identifier::<K, V>(self.entries@.insert(code, v)) =~= self@.insert(*key, v));
            }
        }
        fx_get_mut(&mut self.entries, &code)
    }

    pub fn remove(&mut self, key: &K) -> (removed: Option<V>)
        ensures
            final(self)@ == old(self)@.remove(*key),
            removed == (if old(self)@.contains_key(*key) { Some(old(self)@[*key]) } else { None }),
    {
        let code: u128 = key.to_code();
        let removed = fx_remove(&mut self.entries, &code);
        proof {
            assert forall|k: K| k.code() == code implies k == *key by {
                K::code_injective(k, *key);
            }
            assert(self@ =~= old(self)@.remove(*key));
        }
        removed
    }

    pub fn len(&self) -> (n: usize)
        ensures
            self@.dom().finite(),
            n == self@.dom().len(),
    {
        let keys = self.keys();
        proof {
            assert forall|i: int, j: int| 0 <= i < keys@.len() && 0 <= j < keys@.len() && i != j
                implies keys@[i] != keys@[j] by {
                assert(if i < j {
                    keys@[i].code() < keys@[j].code()
                } else {
                    keys@[j].code() < keys@[i].code()
                });
            }
            keys@.unique_seq_to_set();
        }
        keys.len()
    }

    pub fn is_empty(&self) -> (empty: bool)
        ensures
            empty == self@.is_empty(),
    {
        let n: usize = self.len();
        proof {
            if n == 0 {
                assert(self@.dom() =~= Set::<K>::empty());
                assert(self@ =~= Map::<K, V>::empty());
            } else if self@.is_empty() {
                assert(self@ =~= Map::<K, V>::empty());
                assert(self@.dom() =~= Set::<K>::empty());
            }
        }
        n == 0
    }

    /// The identifiers that have an entry, each once, in ascending order.
    pub fn keys(&self) -> (keys: Vec<K>)
        ensures
            keys@ == sorted_keys(self@.dom()),
            ascending(keys@),
            keys@.to_set() == self@.dom(),
    {
        let mut keys: Vec<K> = Vec::new();
        let walk = fx_keys(&self.entries);
        let ghost walked = walk.remaining().unref();
        for c in it: walk
            invariant
                it.seq().unref() == walked,
                it.seq().no_duplicates(),
                walked.to_set() == self.entries@.dom(),
                ascending(keys@),
                forall|k: K| #[trigger] keys@.contains(k) <==> walked.subrange(0, it.index() as int).contains(k.code()),
        {
            let ghost done = walked.subrange(0, it.index() as int);
            assert(walked[it.index() as int] == *c);
            assert(walked.to_set().contains(*c));
            assert(self.entries@.contains_key(*c));
            let ghost before = keys@;
            let ghost after = walked.subrange(0, it.index() as int + 1);
            assert(after =~= done.push(*c));
            proof {
                assert forall|k: K| #[trigger] after.contains(k.code()) <==> done.contains(k.code()) || k.code() == *c by {
                    if done.contains(k.code()) {
                        let i = choose|i: int| 0 <= i < done.len() && done[i] == k.code();
                        assert(after[i] == k.code());
                    }
                    assert(after[done.len() as int] == *c);
                    if after.contains(k.code()) {
                        let i = choose|i: int| 0 <= i < after.len() && after[i] == k.code();
                        if i < done.len() {
                            assert(done[i] == k.code());
                        }
                    }
                }
            }
            if let Some(key) = K::from_code(*c) {
                proof {
                    if keys@.contains(key) {
                        let i = choose|i: int| 0 <= i < done.len() && done[i] == key.code();
                        assert(*it.seq()[i] == *it.seq()[it.index() as int]);
                    }
                }
                insert_sorted(&mut keys, key);
                proof {
                    assert forall|k: K| #[trigger] keys@.contains(k) <==> after.contains(k.code()) by {
                        assert(keys@.to_set().contains(k) <==> before.to_set().contains(k) || k == key);
                        if k.code() == *c {
                            K::code_injective(k, key);
                        }
                    }
                }
            }
        }
        proof {
            assert(walked.subrange(0, walked.len() as int) =~= walked);
            assert forall|k: K| keys@.to_set().contains(k) <==> self@.dom().contains(k) by {
                assert(walked.to_set().contains(k.code()) <==> self@.dom().contains(k));
            }
            assert(keys@.to_set() =~= self@.dom());
            lemma_sorted_keys(keys@, self@.dom());
        }
        keys
    }
}

} // verus!

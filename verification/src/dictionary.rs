//! A map from text keys to values that remembers the order in which keys
//! were first inserted.
//!
//! vstd states what a hash map holds only for keys whose hashing it models
//! (`obeys_key_model`): the integers, and not `String`. A map keyed by text
//! is therefore kept here as a list of entries, so that every lookup and
//! every insertion is proved against the map that the list stands for.

use vstd::prelude::*;
use crate::text::text_eq;
use crate::types::LoomValue;
use crate::views::views;

verus! {

/// Whether `i` is the first place at which `keys` holds `key`.
pub open spec fn first_at(keys: Seq<Seq<char>>, key: Seq<char>, i: int) -> bool {
    &&& 0 <= i < keys.len()
    &&& keys[i] == key
    &&& forall|j: int| 0 <= j < i ==> keys[j] != key
}

/// The first place at which `keys` holds `key`.
pub open spec fn first_index(keys: Seq<Seq<char>>, key: Seq<char>) -> int {
    choose|i: int| first_at(keys, key, i)
}

/// A key that occurs has exactly one first place.
pub proof fn first_index_is_first(keys: Seq<Seq<char>>, key: Seq<char>, i: int)
    requires
        first_at(keys, key, i),
    ensures
        first_index(keys, key) == i,
{
    let j = first_index(keys, key);
    assert(first_at(keys, key, j));
    if j < i {
        assert(keys[j] != key);
    } else if i < j {
        assert(keys[i] != key);
    }
}

/// Keys with their values, in insertion order. A lookup finds the first entry
/// with the key; `insert` never adds a second one.
#[derive(Debug, PartialEq)]
pub struct Dictionary<V> {
    entries: Vec<(String, V)>,
}

impl<V> View for Dictionary<V> {
    type V = Map<Seq<char>, V>;

    open spec fn view(&self) -> Map<Seq<char>, V> {
        Map::new(
            |k: Seq<char>| self.keys().contains(k),
            |k: Seq<char>| self.values()[first_index(self.keys(), k)],
        )
    }
}

impl<V> Dictionary<V> {
    /// The keys in insertion order.
    pub closed spec fn keys(&self) -> Seq<Seq<char>> {
        Seq::new(self.entries@.len(), |i: int| self.entries@[i].0@)
    }

    /// The values in the insertion order of their keys.
    pub closed spec fn values(&self) -> Seq<V> {
        Seq::new(self.entries@.len(), |i: int| self.entries@[i].1)
    }

    /// There is one value for each key.
    pub proof fn same_length(&self)
        ensures
            self.keys().len() == self.values().len(),
    {
    }

    pub fn new() -> (r: Self)
        ensures
            r@ == Map::<Seq<char>, V>::empty(),
            r.keys() == Seq::<Seq<char>>::empty(),
            r.values() == Seq::<V>::empty(),
    {
        let r = Dictionary { entries: Vec::new() };
        assert(r.keys() =~= Seq::<Seq<char>>::empty());
        assert(r.values() =~= Seq::<V>::empty());
        assert(r@ =~= Map::<Seq<char>, V>::empty());
        r
    }

    pub fn len(&self) -> (r: usize)
        ensures
            r == self.keys().len(),
            r == self.values().len(),
    {
        self.entries.len()
    }

    pub fn is_empty(&self) -> (r: bool)
        ensures
            r == (self.keys().len() == 0),
    {
        self.entries.len() == 0
    }

    /// First place of `key` among the entries, if it is there.
    fn position(&self, key: &str) -> (r: Option<usize>)
        ensures
            match r {
                Some(i) => first_at(self.keys(), key@, i as int),
                None => !self.keys().contains(key@),
            },
    {
        let mut i: usize = 0;
        while i < self.entries.len()
            invariant
                i <= self.entries.len(),
                forall|j: int| 0 <= j < i ==> self.keys()[j] != key@,
            decreases self.entries.len() - i,
        {
            if text_eq(self.entries[i].0.as_str(), key) {
                return Some(i);
            }
            i += 1;
        }
        None
    }

    pub fn contains_key(&self, key: &str) -> (r: bool)
        ensures
            r == self@.contains_key(key@),
    {
        self.position(key).is_some()
    }

    pub fn get(&self, key: &str) -> (r: Option<&V>)
        ensures
            match r {
                Some(v) => self@.contains_key(key@) && *v == self@[key@],
                None => !self@.contains_key(key@),
            },
    {
        match self.position(key) {
            Some(i) => {
                proof {
                    first_index_is_first(self.keys(), key@, i as int);
                }
                Some(&self.entries[i].1)
            },
            None => None,
        }
    }

    /// The key at place `i` of the insertion order.
    pub fn key_at(&self, i: usize) -> (r: &String)
        requires
            i < self.keys().len(),
        ensures
            r@ == self.keys()[i as int],
    {
        &self.entries[i].0
    }

    /// The value at place `i` of the insertion order.
    pub fn value_at(&self, i: usize) -> (r: &V)
        requires
            i < self.values().len(),
        ensures
            *r == self.values()[i as int],
    {
        &self.entries[i].1
    }

    /// Sets the value of `key`. A key that is new goes to the end of the
    /// order; one that is there keeps its place.
    pub fn insert(&mut self, key: String, value: V)
        ensures
            final(self)@ == old(self)@.insert(key@, value),
            final(self).keys() == if old(self)@.contains_key(key@) {
                old(self).keys()
            } else {
                old(self).keys().push(key@)
            },
            final(self).values() == if old(self)@.contains_key(key@) {
                old(self).values().update(first_index(old(self).keys(), key@), value)
            } else {
                old(self).values().push(value)
            },
    {
        let ghost before = *self;
        let ghost k0 = key@;
        match self.position(key.as_str()) {
            Some(i) => {
                self.entries.set(i, (key, value));
                proof {
                    let after = *self;
                    first_index_is_first(before.keys(), k0, i as int);
                    assert(after.keys() =~= before.keys());
                    assert(after.values() =~= before.values().update(i as int, value));
                    assert(before.keys().contains(k0));
                    assert forall|k: Seq<char>| after@.contains_key(k) implies #[trigger] after@[k]
                        == before@.insert(k0, value)[k] by {
                        let w = choose|w: int| 0 <= w < before.keys().len() && before.keys()[w] == k;
                        lemma_first_exists(before.keys(), k, w);
                    }
                    assert(after@ =~= before@.insert(k0, value));
                }
            },
            None => {
                self.entries.push((key, value));
                proof {
                    let after = *self;
                    let n = before.keys().len() as int;
                    assert(after.keys() =~= before.keys().push(k0));
                    assert(after.values() =~= before.values().push(value));
                    assert(first_at(after.keys(), k0, n));
                    first_index_is_first(after.keys(), k0, n);
                    assert forall|k: Seq<char>| before.keys().contains(k) implies first_index(
                        after.keys(),
                        k,
                    ) == first_index(before.keys(), k) by {
                        let w = choose|w: int| 0 <= w < before.keys().len() && before.keys()[w] == k;
                        lemma_first_exists(before.keys(), k, w);
                        let f = first_index(before.keys(), k);
                        assert(first_at(after.keys(), k, f));
                        first_index_is_first(after.keys(), k, f);
                    }
                    assert forall|k: Seq<char>| after.keys().contains(k) implies k == k0
                        || before.keys().contains(k) by {
                        let w = choose|w: int| 0 <= w < after.keys().len() && after.keys()[w] == k;
                        if w < n {
                            assert(before.keys()[w] == k);
                        }
                    }
                    assert forall|k: Seq<char>| before.keys().contains(k) implies after.keys().contains(k) by {
                        let w = choose|w: int| 0 <= w < before.keys().len() && before.keys()[w] == k;
                        assert(after.keys()[w] == k);
                    }
                    assert(after.keys()[n] == k0);
                    assert forall|k: Seq<char>| after@.contains_key(k) implies #[trigger] after@[k]
                        == before@.insert(k0, value)[k] by {
                        if k != k0 {
                            let w = choose|w: int| 0 <= w < before.keys().len() && before.keys()[w] == k;
                            lemma_first_exists(before.keys(), k, w);
                        }
                    }
                    assert(after@ =~= before@.insert(k0, value));
                }
            },
        }
    }
}

/// A key that occurs somewhere has a first place.
pub proof fn lemma_first_exists(keys: Seq<Seq<char>>, key: Seq<char>, w: int)
    requires
        0 <= w < keys.len(),
        keys[w] == key,
    ensures
        first_at(keys, key, first_index(keys, key)),
        first_index(keys, key) <= w,
    decreases w,
{
    if exists|j: int| 0 <= j < w && keys[j] == key {
        let j = choose|j: int| 0 <= j < w && keys[j] == key;
        lemma_first_exists(keys, key, j);
    } else {
        assert(first_at(keys, key, w));
        first_index_is_first(keys, key, w);
    }
}


/// A dictionary of texts as the contracts see it: each key with the
/// characters of its value.
pub open spec fn text_map(d: Dictionary<String>) -> Map<Seq<char>, Seq<char>> {
    d@.map_values(|t: String| t@)
}

/// The values of a dictionary of texts, as characters, in insertion order.
pub open spec fn text_values(d: Dictionary<String>) -> Seq<Seq<char>> {
    Seq::new(d.values().len(), |i: int| d.values()[i]@)
}

/// Dictionaries with the same keys and the same texts in the same order are
/// the same map.
pub proof fn text_map_by_entries(a: Dictionary<String>, b: Dictionary<String>)
    requires
        a.keys() == b.keys(),
        text_values(a) == text_values(b),
    ensures
        text_map(a) == text_map(b),
{
    a.same_length();
    b.same_length();
    assert forall|k: Seq<char>| text_map(a).contains_key(k) implies #[trigger] text_map(a)[k]
        == text_map(b)[k] by {
        let w = choose|w: int| 0 <= w < a.keys().len() && a.keys()[w] == k;
        lemma_first_exists(a.keys(), k, w);
        let f = first_index(a.keys(), k);
        assert(text_values(a)[f] == a.values()[f]@);
        assert(text_values(b)[f] == b.values()[f]@);
    }
    assert(text_map(a) =~= text_map(b));
}

/// A copy of a dictionary of texts.
pub fn clone_text_dictionary(d: &Dictionary<String>) -> (r: Dictionary<String>)
    ensures
        r.keys() == d.keys(),
        text_values(r) == text_values(*d),
        text_map(r) == text_map(*d),
{
    let mut out: Dictionary<String> = Dictionary { entries: Vec::new() };
    let mut i: usize = 0;
    while i < d.entries.len()
        invariant
            i <= d.entries.len(),
            out.entries.len() == i,
            forall|j: int|
                0 <= j < i ==> out.entries@[j].0@ == d.entries@[j].0@ && out.entries@[j].1@
                    == d.entries@[j].1@,
        decreases d.entries.len() - i,
    {
        out.entries.push((d.entries[i].0.clone(), d.entries[i].1.clone()));
        i += 1;
    }
    proof {
        assert(out.keys() =~= d.keys());
        assert(text_values(out) =~= text_values(*d));
        text_map_by_entries(out, *d);
    }
    out
}


/// A dictionary as the contracts see it: each key with the view of its value.
pub open spec fn view_map<V: View>(d: Dictionary<V>) -> Map<Seq<char>, V::V> {
    d@.map_values(|v: V| v@)
}

/// Dictionaries with the same keys and, place by place, values of the same
/// view are the same map of views.
pub proof fn view_map_by_entries<V: View>(a: Dictionary<V>, b: Dictionary<V>)
    requires
        a.keys() == b.keys(),
        views(a.values()) == views(b.values()),
    ensures
        view_map(a) == view_map(b),
{
    a.same_length();
    b.same_length();
    assert forall|k: Seq<char>| view_map(a).contains_key(k) implies #[trigger] view_map(a)[k]
        == view_map(b)[k] by {
        let w = choose|w: int| 0 <= w < a.keys().len() && a.keys()[w] == k;
        lemma_first_exists(a.keys(), k, w);
        let f = first_index(a.keys(), k);
        assert(views(a.values())[f] == a.values()[f]@);
        assert(views(b.values())[f] == b.values()[f]@);
    }
    assert(view_map(a) =~= view_map(b));
}

/// A copy of a dictionary of values.
pub fn clone_value_dictionary(d: &Dictionary<LoomValue>) -> (r: Dictionary<LoomValue>)
    ensures
        r.keys() == d.keys(),
        views(r.values()) == views(d.values()),
        view_map(r) == view_map(*d),
{
    let mut out: Dictionary<LoomValue> = Dictionary { entries: Vec::new() };
    let mut i: usize = 0;
    while i < d.entries.len()
        invariant
            i <= d.entries.len(),
            out.entries.len() == i,
            forall|j: int|
                0 <= j < i ==> out.entries@[j].0@ == d.entries@[j].0@ && out.entries@[j].1@
                    == d.entries@[j].1@,
        decreases d.entries.len() - i,
    {
        out.entries.push((d.entries[i].0.clone(), d.entries[i].1.clone()));
        i += 1;
    }
    proof {
        assert(out.keys() =~= d.keys());
        assert(views(out.values()) =~= views(d.values()));
        view_map_by_entries(out, *d);
    }
    out
}

} // verus!

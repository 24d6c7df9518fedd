//! An insertion-ordered map keyed by text.
//!
//! The entries are kept in a vector, in the order in which their keys were
//! first inserted, and no key occurs twice. Keys are compared exactly, byte
//! for byte.

use crate::text::same_text;
use vstd::prelude::*;
use vstd::std_specs::cmp::{PartialEqSpec, PartialEqSpecImpl};

verus! {

/// No two entries share a key.
pub open spec fn distinct_keys<V>(entries: Seq<(Seq<char>, V)>) -> bool {
    forall|i: int, j: int|
        0 <= i < j < entries.len() ==> (#[trigger] entries[i]).0 != (#[trigger] entries[j]).0
}

/// Some entry has the key `key`.
pub open spec fn has_key<V>(entries: Seq<(Seq<char>, V)>, key: Seq<char>) -> bool {
    exists|i: int| 0 <= i < entries.len() && (#[trigger] entries[i]).0 == key
}

/// The position of an entry with the key `key`; the only one where keys are
/// distinct.
pub open spec fn index_of_key<V>(entries: Seq<(Seq<char>, V)>, key: Seq<char>) -> int {
    choose|i: int| 0 <= i < entries.len() && (#[trigger] entries[i]).0 == key
}

/// The mapping that a list of entries stands for.
pub open spec fn to_map<V>(entries: Seq<(Seq<char>, V)>) -> Map<Seq<char>, V> {
    Map::new(
        |key: Seq<char>| has_key(entries, key),
        |key: Seq<char>| entries[index_of_key(entries, key)].1,
    )
}

/// The entries after `key` is set to `value`: an entry that has the key keeps
/// its place and takes the value, a new key goes to the end.
pub open spec fn put<V>(entries: Seq<(Seq<char>, V)>, key: Seq<char>, value: V) -> Seq<
    (Seq<char>, V),
> {
    if has_key(entries, key) {
        entries.update(index_of_key(entries, key), (key, value))
    } else {
        entries.push((key, value))
    }
}

/// Where keys are distinct, an entry with the key `key` is the one that
/// `index_of_key` names.
pub proof fn lemma_index_of_key<V>(entries: Seq<(Seq<char>, V)>, key: Seq<char>, i: int)
    requires
        distinct_keys(entries),
        0 <= i < entries.len(),
        entries[i].0 == key,
    ensures
        has_key(entries, key),
        index_of_key(entries, key) == i,
{
}

/// `put` keeps keys distinct and acts on the mapping as an insertion.
pub proof fn lemma_put<V>(entries: Seq<(Seq<char>, V)>, key: Seq<char>, value: V)
    requires
        distinct_keys(entries),
    ensures
        distinct_keys(put(entries, key, value)),
        to_map(put(entries, key, value)) == to_map(entries).insert(key, value),
{
    let after = put(entries, key, value);
    let at = if has_key(entries, key) {
        index_of_key(entries, key)
    } else {
        entries.len() as int
    };
    assert forall|i: int| 0 <= i < after.len() && i != at implies 0 <= i < entries.len()
        && after[i] == entries[i] && #[trigger] after[i].0 != key by {}
    assert forall|k: Seq<char>| has_key(after, k) <==> (k == key || has_key(entries, k)) by {
        if k == key {
            assert(after[at].0 == k);
        } else if has_key(entries, k) {
            assert(after[index_of_key(entries, k)].0 == k);
        }
    }
    assert forall|k: Seq<char>| has_key(after, k) implies #[trigger] to_map(after)[k] == to_map(
        entries,
    ).insert(key, value)[k] by {
        if k == key {
            lemma_index_of_key(after, k, at);
        } else {
            lemma_index_of_key(after, k, index_of_key(entries, k));
        }
    }
}

/// A prefix of entries with distinct keys has distinct keys, and one entry
/// more adds one insertion to the mapping.
pub proof fn lemma_to_map_take<V>(entries: Seq<(Seq<char>, V)>, n: int)
    requires
        distinct_keys(entries),
        0 <= n < entries.len(),
    ensures
        distinct_keys(entries.take(n)),
        distinct_keys(entries.take(n + 1)),
        !has_key(entries.take(n), entries[n].0),
        to_map(entries.take(n + 1)) == to_map(entries.take(n)).insert(entries[n].0, entries[n].1),
{
    let shorter = entries.take(n);
    assert(entries.take(n + 1) =~= put(shorter, entries[n].0, entries[n].1));
    lemma_put(shorter, entries[n].0, entries[n].1);
}

/// A mapping has as many keys as the list of distinct-keyed entries that it
/// stands for has entries.
pub proof fn lemma_to_map_len<V>(entries: Seq<(Seq<char>, V)>)
    requires
        distinct_keys(entries),
    ensures
        to_map(entries).dom().finite(),
        to_map(entries).dom().len() == entries.len(),
    decreases entries.len(),
{
    if entries.len() == 0 {
        assert(to_map(entries).dom() =~= Set::<Seq<char>>::empty());
    } else {
        let n = entries.len() - 1;
        lemma_to_map_take(entries, n);
        lemma_to_map_len(entries.take(n));
        assert(entries.take(n + 1) =~= entries);
    }
}

/// A map from text keys to values of `V` that remembers the order in which
/// its keys were first inserted. Two maps are equal when they have the same
/// keys with equal values, in whatever order.
#[derive(Debug)]
pub struct StringMap<V> {
    entries: Vec<(String, V)>,
}

impl<V> View for StringMap<V> {
    type V = Map<Seq<char>, V>;

    /// The mapping from each key to its value.
    open spec fn view(&self) -> Map<Seq<char>, V> {
        to_map(self.entries())
    }
}

impl<V: DeepView> DeepView for StringMap<V> {
    type V = Map<Seq<char>, V::V>;

    /// The mapping from each key to the model of its value.
    open spec fn deep_view(&self) -> Map<Seq<char>, V::V> {
        self@.map_values(|value: V| value.deep_view())
    }
}

impl<V> StringMap<V> {
    /// What holds of every map: no key occurs twice.
    #[verifier::type_invariant]
    pub open spec fn keys_are_distinct(&self) -> bool {
        distinct_keys(self.entries())
    }

    /// The entries in insertion order, each key as the text that it holds.
    pub closed spec fn entries(&self) -> Seq<(Seq<char>, V)> {
        Seq::new(self.entries@.len(), |i: int| (self.entries@[i].0@, self.entries@[i].1))
    }

    /// An empty map.
    pub fn new() -> (map: Self)
        ensures
            map.entries() == Seq::<(Seq<char>, V)>::empty(),
            map@ == Map::<Seq<char>, V>::empty(),
    {
        StringMap { entries: Vec::new() }
    }

    /// The number of entries.
    pub fn len(&self) -> (n: usize)
        ensures
            n == self.entries().len(),
            n == self@.dom().len(),
            self@.dom().finite(),
    {
        proof {
            use_type_invariant(self);
            lemma_to_map_len(self.entries());
        }
        self.entries.len()
    }

    /// Whether the map has no entry.
    pub fn is_empty(&self) -> (empty: bool)
        ensures
            empty == (self.entries().len() == 0),
            empty == (self@ == Map::<Seq<char>, V>::empty()),
    {
        proof {
            if self.entries().len() == 0 {
                assert(self@ =~= Map::<Seq<char>, V>::empty());
            } else {
                assert(self@.contains_key(self.entries()[0].0));
            }
        }
        self.entries.len() == 0
    }

    /// The position of the entry of `key`, if it has one.
    fn position(&self, key: &str) -> (found: Option<usize>)
        ensures
            match found {
                Some(i) => i < self.entries().len() && self.entries()[i as int].0 == key@
                    && index_of_key(self.entries(), key@) == i,
                None => !has_key(self.entries(), key@),
            },
    {
        proof {
            use_type_invariant(self);
        }
        let mut i: usize = 0;
        while i < self.entries.len()
            invariant
                i <= self.entries@.len(),
                distinct_keys(self.entries()),
                forall|j: int| 0 <= j < i ==> (#[trigger] self.entries()[j]).0 != key@,
            decreases self.entries@.len() - i,
        {
            if same_text(self.entries[i].0.as_str(), key) {
                proof {
                    lemma_index_of_key(self.entries(), key@, i as int);
                }
                return Some(i);
            }
            i += 1;
        }
        None
    }

    /// Whether `key` has a value.
    pub fn contains_key(&self, key: &str) -> (found: bool)
        ensures
            found == self@.contains_key(key@),
    {
        self.position(key).is_some()
    }

    /// The value of `key`, if it has one.
    pub fn get(&self, key: &str) -> (value: Option<&V>)
        ensures
            match value {
                Some(v) => self@.contains_key(key@) && *v == self@[key@],
                None => !self@.contains_key(key@),
            },
    {
        match self.position(key) {
            Some(i) => Some(&self.entries[i].1),
            None => None,
        }
    }

    /// The entry at position `index` of the insertion order, if there is one.
    pub fn get_index(&self, index: usize) -> (entry: Option<(&String, &V)>)
        ensures
            match entry {
                Some((key, value)) => index < self.entries().len() && (key@, *value)
                    == self.entries()[index as int],
                None => index >= self.entries().len(),
            },
    {
        if index < self.entries.len() {
            let entry = &self.entries[index];
            Some((&entry.0, &entry.1))
        } else {
            None
        }
    }

    /// Sets `key` to `value`. A key that is already present keeps its place
    /// in the order; a new key goes to the end.
    pub fn insert(&mut self, key: String, value: V)
        ensures
            final(self).entries() == put(old(self).entries(), key@, value),
            final(self)@ == old(self)@.insert(key@, value),
    {
        let ghost before = self.entries();
        proof {
            use_type_invariant(&*self);
            lemma_put(before, key@, value);
        }
        let found = self.position(key.as_str());
        // The entries are moved out, changed and moved back, so that the map
        // is whole whenever it can be seen.
        let mut taken = StringMap { entries: Vec::new() };
        core::mem::swap(self, &mut taken);
        let mut entries = taken.entries;
        match found {
            Some(i) => {
                entries.set(i, (key, value));
            },
            None => {
                entries.push((key, value));
            },
        }
        let ghost after = Seq::new(entries@.len(), |i: int| (entries@[i].0@, entries@[i].1));
        assert(after =~= put(before, key@, value));
        *self = StringMap { entries };
    }
}

impl<V: Clone> Clone for StringMap<V> {
    /// A copy with the same keys in the same order, each value a clone.
    fn clone(&self) -> (copy: Self)
        ensures
            copy.entries().len() == self.entries().len(),
            forall|i: int|
                0 <= i < self.entries().len() ==> (#[trigger] copy.entries()[i]).0
                    == self.entries()[i].0 && cloned::<V>(
                    self.entries()[i].1,
                    copy.entries()[i].1,
                ),
            copy@.dom() == self@.dom(),
            forall|key: Seq<char>| #[trigger]
                self@.contains_key(key) ==> cloned::<V>(self@[key], copy@[key]),
    {
        proof {
            use_type_invariant(self);
        }
        let mut entries: Vec<(String, V)> = Vec::new();
        let mut i: usize = 0;
        while i < self.entries.len()
            invariant
                i <= self.entries@.len(),
                entries@.len() == i,
                forall|j: int|
                    0 <= j < i ==> (#[trigger] entries@[j]).0@ == self.entries@[j].0@ && cloned::<V>(
                        self.entries@[j].1,
                        entries@[j].1,
                    ),
            decreases self.entries@.len() - i,
        {
            let entry = &self.entries[i];
            entries.push((entry.0.clone(), entry.1.clone()));
            i += 1;
        }
        let ghost ours = self.entries();
        let ghost theirs = Seq::new(entries@.len(), |i: int| (entries@[i].0@, entries@[i].1));
        proof {
            assert forall|i: int, j: int| 0 <= i < j < theirs.len() implies (#[trigger] theirs[i]).0
                != (#[trigger] theirs[j]).0 by {
                assert(ours[i].0 != ours[j].0);
            }
            assert forall|key: Seq<char>| has_key(ours, key) <==> has_key(theirs, key) by {
                if has_key(ours, key) {
                    assert(theirs[index_of_key(ours, key)].0 == key);
                }
                if has_key(theirs, key) {
                    assert(ours[index_of_key(theirs, key)].0 == key);
                }
            }
            assert forall|key: Seq<char>| #[trigger] to_map(ours).contains_key(key) implies cloned::<
                V,
            >(to_map(ours)[key], to_map(theirs)[key]) by {
                let i = index_of_key(ours, key);
                lemma_index_of_key(theirs, key, i);
            }
        }
        StringMap { entries }
    }
}

impl<V: PartialEq> PartialEq for StringMap<V> {
    /// Whether the two maps have the same keys with equal values, in
    /// whatever order.
    fn eq(&self, other: &Self) -> (equal: bool) {
        proof {
            use_type_invariant(self);
            use_type_invariant(other);
        }
        if self.entries.len() != other.entries.len() {
            return false;
        }
        let mut i: usize = 0;
        while i < self.entries.len()
            invariant
                i <= self.entries@.len(),
                forall|j: int|
                    0 <= j < i ==> has_key(other.entries(), (#[trigger] self.entries()[j]).0) && (
                    V::obeys_eq_spec() ==> self.entries()[j].1.eq_spec(
                        &other.entries()[index_of_key(other.entries(), self.entries()[j].0)].1,
                    )),
            decreases self.entries@.len() - i,
        {
            let entry = &self.entries[i];
            match other.position(entry.0.as_str()) {
                Some(at) => {
                    if !(entry.1 == other.entries[at].1) {
                        assert(self.entries()[i as int].0 == entry.0@);
                        return false;
                    }
                },
                None => {
                    assert(self.entries()[i as int].0 == entry.0@);
                    return false;
                },
            }
            i += 1;
        }
        true
    }
}

impl<V: PartialEq> PartialEqSpecImpl for StringMap<V> {
    open spec fn obeys_eq_spec() -> bool {
        V::obeys_eq_spec()
    }

    /// What `==` means: as many entries, and each key of the one has in the
    /// other a value equal to its own.
    open spec fn eq_spec(&self, other: &Self) -> bool {
        &&& self.entries().len() == other.entries().len()
        &&& forall|i: int|
            0 <= i < self.entries().len() ==> has_key(
                other.entries(),
                (#[trigger] self.entries()[i]).0,
            ) && self.entries()[i].1.eq_spec(
                &other.entries()[index_of_key(other.entries(), self.entries()[i].0)].1,
            )
    }
}

impl<V: Eq> Eq for StringMap<V> {}

impl<V> Default for StringMap<V> {
    fn default() -> (map: Self)
        ensures
            map@ == Map::<Seq<char>, V>::empty(),
    {
        StringMap::new()
    }
}

} // verus!

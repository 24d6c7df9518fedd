//! An insertion-ordered set of texts.

use crate::string_map::{has_key, StringMap};
use vstd::prelude::*;

verus! {

/// A set of texts that remembers the order in which its members were first
/// inserted.
#[derive(Debug, PartialEq, Eq)]
pub struct StringSet {
    members: StringMap<()>,
}

impl View for StringSet {
    type V = Set<Seq<char>>;

    /// The set of the members.
    closed spec fn view(&self) -> Set<Seq<char>> {
        self.members@.dom()
    }
}

impl DeepView for StringSet {
    type V = Set<Seq<char>>;

    open spec fn deep_view(&self) -> Set<Seq<char>> {
        self@
    }
}

impl StringSet {
    /// The members in insertion order.
    pub closed spec fn items(&self) -> Seq<Seq<char>> {
        Seq::new(self.members.entries().len(), |i: int| self.members.entries()[i].0)
    }

    /// An empty set.
    pub fn new() -> (set: Self)
        ensures
            set@ == Set::<Seq<char>>::empty(),
            set.items() == Seq::<Seq<char>>::empty(),
    {
        StringSet { members: StringMap::new() }
    }

    /// The number of members.
    pub fn len(&self) -> (n: usize)
        ensures
            self@.finite(),
            n == self@.len(),
            n == self.items().len(),
    {
        self.members.len()
    }

    /// Whether the set has no member.
    pub fn is_empty(&self) -> (empty: bool)
        ensures
            empty == (self@ == Set::<Seq<char>>::empty()),
    {
        let empty = self.members.is_empty();
        proof {
            if self@ == Set::<Seq<char>>::empty() {
                assert(self.members@ =~= Map::<Seq<char>, ()>::empty());
            }
        }
        empty
    }

    /// Whether `value` is a member.
    pub fn contains(&self, value: &str) -> (found: bool)
        ensures
            found == self@.contains(value@),
    {
        self.members.contains_key(value)
    }

    /// The member at position `index` of the insertion order, if there is
    /// one.
    pub fn get_index(&self, index: usize) -> (member: Option<&String>)
        ensures
            match member {
                Some(text) => index < self.items().len() && text@ == self.items()[index as int]
                    && self@.contains(text@),
                None => index >= self.items().len(),
            },
    {
        match self.members.get_index(index) {
            Some((text, _)) => {
                assert(has_key(self.members.entries(), text@));
                Some(text)
            },
            None => None,
        }
    }

    /// Adds `value`; returns whether it was new. A member that is already
    /// present keeps its place in the order.
    pub fn insert(&mut self, value: String) -> (added: bool)
        ensures
            final(self)@ == old(self)@.insert(value@),
            added == !old(self)@.contains(value@),
            final(self).items() == if added {
                old(self).items().push(value@)
            } else {
                old(self).items()
            },
    {
        if self.members.contains_key(value.as_str()) {
            false
        } else {
            self.members.insert(value, ());
            true
        }
    }
}

impl Clone for StringSet {
    fn clone(&self) -> (copy: Self)
        ensures
            copy@ == self@,
            copy.items() == self.items(),
    {
        StringSet { members: self.members.clone() }
    }
}

impl Default for StringSet {
    fn default() -> (set: Self)
        ensures
            set@ == Set::<Seq<char>>::empty(),
    {
        StringSet::new()
    }
}

} // verus!

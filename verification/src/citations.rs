//! The bibliography keys of one run.

use vstd::prelude::*;
use vstd::hash_set::StringHashSet;

verus! {

/// The set of keys that the bibliography declares.
pub struct CitationSet {
    keys: StringHashSet,
}

impl View for CitationSet {
    type V = Set<Seq<char>>;

    closed spec fn view(&self) -> Set<Seq<char>> {
        self.keys@
    }
}

impl CitationSet {
    /// The set without any key.
    pub fn new() -> (set: CitationSet)
        ensures
            set@ == Set::<Seq<char>>::empty(),
    {
        CitationSet { keys: StringHashSet::new() }
    }

    /// Adds `key`, and says whether it is new to the set.
    pub fn insert(&mut self, key: String) -> (fresh: bool)
        ensures
            final(self)@ == old(self)@.insert(key@),
            fresh == !old(self)@.contains(key@),
    {
        self.keys.insert(key)
    }

    /// Whether `key` is in the set.
    pub fn contains(&self, key: &str) -> (found: bool)
        ensures
            found == self@.contains(key@),
    {
        self.keys.contains(key)
    }

    /// How many keys the set holds.
    pub fn len(&self) -> (n: usize)
        ensures
            n == self@.len(),
    {
        self.keys.len()
    }
}

} // verus!

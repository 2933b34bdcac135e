//! A text filter that keeps every record in full.

use super::Filter;
use vstd::hash_set::StringHashSet;
use vstd::prelude::*;

verus! {

/// Detects repeats by comparing records character for character.
pub struct NaiveFilter {
    inner: StringHashSet,
}

impl View for NaiveFilter {
    type V = Set<Seq<char>>;

    /// The records seen so far.
    closed spec fn view(&self) -> Set<Seq<char>> {
        self.inner@
    }
}

impl Default for NaiveFilter {
    fn default() -> (filter: NaiveFilter)
        ensures
            filter@ == Set::<Seq<char>>::empty(),
    {
        NaiveFilter { inner: StringHashSet::new() }
    }
}

impl Filter for NaiveFilter {
    open spec fn recalls(&self, text: Seq<char>) -> bool {
        self@.contains(text)
    }

    open spec fn becomes(&self, input: Seq<char>, after: &Self) -> bool {
        after@ == self@.insert(input)
    }

    fn new() -> (filter: NaiveFilter)
        ensures
            filter@ == Set::<Seq<char>>::empty(),
    {
        NaiveFilter { inner: StringHashSet::new() }
    }

    fn detect(&mut self, input: &str) -> (fresh: bool)
        ensures
            final(self)@ == old(self)@.insert(input@),
    {
        let fresh = self.inner.insert(input.to_owned());
        proof {
            if !fresh {
                assert(final(self)@ =~= old(self)@);
            }
        }
        fresh
    }
}

} // verus!

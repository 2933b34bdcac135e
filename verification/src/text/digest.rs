//! A text filter that keeps one digest per record.

use super::Filter;
use crate::digest::xxh64_of;
use fnv::{FnvBuildHasher, FnvHasher};
use std::collections::HashSet;
use vstd::prelude::*;
use vstd::utf8::encode_utf8;
use xxhash_rust::xxh64::xxh64;

verus! {

/// The hasher of the `fnv` crate.
#[verifier::external_type_specification]
#[verifier::external_body]
pub struct ExFnvHasher(FnvHasher);

/// `HashSet::insert` on a set of digests that hashes with `FnvHasher`.
///
/// The standard library documents that `insert` adds the value and returns
/// whether it was absent before. That holds of a set whose hasher gives equal
/// keys equal hashes, and `FnvHasher` does: it starts from a fixed state and
/// folds the bytes of the key into it.
#[verifier::external_body]
fn insert_digest(digests: &mut HashSet<u64, FnvBuildHasher>, digest: u64) -> (fresh: bool)
    ensures
        final(digests)@ == old(digests)@.insert(digest),
        fresh == !old(digests)@.contains(digest),
{
    digests.insert(digest)
}

/// The digest under which a [`DigestFilter`] keeps the record `text`: the
/// XXH64 digest of its UTF-8 bytes, with seed 0, whatever the machine.
pub open spec fn text_digest(text: Seq<char>) -> u64 {
    xxh64_of(encode_utf8(text), 0)
}

/// Detects repeats by a digest of a record.
///
/// Two records with the same digest are the same record to this filter. In
/// return it stores eight bytes per record, whatever the record's length.
pub struct DigestFilter {
    inner: HashSet<u64, FnvBuildHasher>,
}

impl View for DigestFilter {
    type V = Set<u64>;

    /// The digests of the records seen so far.
    closed spec fn view(&self) -> Set<u64> {
        self.inner@
    }
}

impl DigestFilter {
    /// Looks at one record by its digest and remembers it.
    ///
    /// Returns `true` when no record with the digest `digest` has been seen
    /// before, and `false` when one has.
    pub fn detect_digest(&mut self, digest: u64) -> (fresh: bool)
        ensures
            fresh == !old(self)@.contains(digest),
            final(self)@ == old(self)@.insert(digest),
    {
        insert_digest(&mut self.inner, digest)
    }
}

impl Default for DigestFilter {
    fn default() -> (filter: DigestFilter)
        ensures
            filter@ == Set::<u64>::empty(),
    {
        DigestFilter { inner: HashSet::default() }
    }
}

impl Filter for DigestFilter {
    open spec fn recalls(&self, text: Seq<char>) -> bool {
        self@.contains(text_digest(text))
    }

    open spec fn becomes(&self, input: Seq<char>, after: &Self) -> bool {
        after@ == self@.insert(text_digest(input))
    }

    fn new() -> (filter: DigestFilter)
        ensures
            filter@ == Set::<u64>::empty(),
    {
        DigestFilter { inner: HashSet::default() }
    }

    fn detect(&mut self, input: &str) -> (fresh: bool)
        ensures
            final(self)@ == old(self)@.insert(text_digest(input@)),
    {
        let fresh = self.detect_digest(xxh64(input.as_bytes(), 0));
        proof {
            if !fresh {
                assert(final(self)@ =~= old(self)@);
            }
        }
        fresh
    }
}

} // verus!

//! A filter that keeps one 64-bit digest per record.

use super::Filter;
use crate::digest::xxh3_64_of;
use identity_hash::{BuildIdentityHasher, IdentityHasher};
use std::collections::HashSet;
use vstd::prelude::*;
use xxhash_rust::xxh3::xxh3_64;

verus! {

/// The hasher of the `identity_hash` crate, which hands a key back as its own
/// hash.
#[verifier::external_type_specification]
#[verifier::external_body]
#[verifier::reject_recursive_types(T)]
pub struct ExIdentityHasher<T>(IdentityHasher<T>);

/// `HashSet::insert` on a set of digests that hashes with `IdentityHasher`.
///
/// The standard library documents that `insert` adds the value and returns
/// whether it was absent before. That holds of a set whose hasher gives equal
/// keys equal hashes, and `IdentityHasher` does: the hash of a `u64` is the
/// `u64` itself.
#[verifier::external_body]
fn insert_digest(digests: &mut HashSet<u64, BuildIdentityHasher<u64>>, digest: u64) -> (fresh: bool)
    ensures
        final(digests)@ == old(digests)@.insert(digest),
        fresh == !old(digests)@.contains(digest),
{
    digests.insert(digest)
}

/// `HashSet::clone` on a set of digests: the copy holds the digests that
/// `digests` holds.
#[verifier::external_body]
fn copy_digests(digests: &HashSet<u64, BuildIdentityHasher<u64>>) -> (copy: HashSet<
    u64,
    BuildIdentityHasher<u64>,
>)
    ensures
        copy@ == digests@,
{
    digests.clone()
}

/// Detects repeats by the XXH3 digest of a record.
///
/// Two records with the same digest are the same record to this filter, so a
/// collision makes it take a new record for a repeat. In return it stores
/// eight bytes per record, whatever the record's length.
#[derive(Debug)]
pub struct QuickFilter {
    inner: HashSet<u64, BuildIdentityHasher<u64>>,
}

impl View for QuickFilter {
    type V = Set<u64>;

    /// The digests of the records seen so far.
    closed spec fn view(&self) -> Set<u64> {
        self.inner@
    }
}

impl QuickFilter {
    /// Creates a filter that has seen no record.
    pub fn new() -> (filter: QuickFilter)
        ensures
            filter@ == Set::<u64>::empty(),
            forall|record: Seq<u8>| !filter.recalls(record),
    {
        QuickFilter { inner: HashSet::default() }
    }

    /// Looks at one record by its digest and remembers it.
    ///
    /// Returns `true` when no record with the digest `digest` has been seen
    /// before, and `false` when one has.
    pub fn detect_digest(&mut self, digest: u64) -> (fresh: bool)
        ensures
            fresh == !old(self)@.contains(digest),
            final(self)@ == old(self)@.insert(digest),
    {
        insert_digest(&mut self.inner, digest)
    }
}

impl Clone for QuickFilter {
    fn clone(&self) -> (copy: QuickFilter)
        ensures
            copy@ == self@,
    {
        QuickFilter { inner: copy_digests(&self.inner) }
    }
}

impl Default for QuickFilter {
    fn default() -> (filter: QuickFilter)
        ensures
            filter@ == Set::<u64>::empty(),
            forall|record: Seq<u8>| !filter.recalls(record),
    {
        QuickFilter::new()
    }
}

impl Filter for QuickFilter {
    open spec fn recalls(&self, record: Seq<u8>) -> bool {
        self@.contains(xxh3_64_of(record))
    }

    open spec fn becomes(&self, input: Seq<u8>, after: &Self) -> bool {
        after@ == self@.insert(xxh3_64_of(input))
    }

    fn detect(&mut self, input: &[u8]) -> (fresh: bool)
        ensures
            final(self)@ == old(self)@.insert(xxh3_64_of(input@)),
    {
        let fresh = self.detect_digest(xxh3_64(input));
        proof {
            if !fresh {
                assert(final(self)@ =~= old(self)@);
            }
        }
        fresh
    }
}

} // verus!

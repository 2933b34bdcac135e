//! A filter that keeps every record in full.
//!
//! The records are kept in a map from their XXH3 digest to the records with
//! that digest, and not in a `HashSet<Vec<u8>>`: vstd states what a hash set
//! or map does only for keys that obey its key model, which it grants to the
//! integers and not to `Vec<u8>`, so that of a set of records nothing could
//! be proved. Of the map with `u64` keys everything below is.

use super::{same_bytes, Filter};
use crate::digest::xxh3_64_of;
use std::collections::HashMap;
use vstd::prelude::*;
use vstd::slice::slice_to_vec;
use xxhash_rust::xxh3::xxh3_64;

verus! {

/// Whether one of the records in `bucket` holds exactly the bytes `record`.
pub open spec fn bucket_holds(bucket: Seq<Vec<u8>>, record: Seq<u8>) -> bool {
    exists|i: int| 0 <= i < bucket.len() && #[trigger] bucket[i]@ == record
}

/// Whether `bucket` is fit to stand under the digest `key`: it holds at least
/// one record, every record in it has the digest `key`, and none is in it
/// twice.
pub open spec fn bucket_fits(bucket: Seq<Vec<u8>>, key: u64) -> bool {
    &&& bucket.len() > 0
    &&& forall|i: int| 0 <= i < bucket.len() ==> xxh3_64_of(#[trigger] bucket[i]@) == key
    &&& forall|i: int, j: int|
        0 <= i < j < bucket.len() ==> #[trigger] bucket[i]@ != #[trigger] bucket[j]@
}

/// A bucket with one more record holds that record and what it held before,
/// and nothing else.
proof fn lemma_push_holds(bucket: Seq<Vec<u8>>, added: Vec<u8>, record: Seq<u8>)
    ensures
        bucket_holds(bucket.push(added), record) == (bucket_holds(bucket, record) || record
            == added@),
{
    let longer = bucket.push(added);
    if bucket_holds(bucket, record) {
        let i = choose|i: int| 0 <= i < bucket.len() && #[trigger] bucket[i]@ == record;
        assert(longer[i]@ == record);
    }
    if record == added@ {
        assert(longer[longer.len() - 1]@ == record);
    }
    if bucket_holds(longer, record) {
        let i = choose|i: int| 0 <= i < longer.len() && #[trigger] longer[i]@ == record;
        if i < bucket.len() {
            assert(bucket[i]@ == record);
        }
    }
}

/// A bucket that is empty or fits under `key` fits under `key` with one more
/// record, if the record has the digest `key` and was not in it.
proof fn lemma_push_fits(bucket: Seq<Vec<u8>>, added: Vec<u8>, key: u64)
    requires
        bucket.len() == 0 || bucket_fits(bucket, key),
        xxh3_64_of(added@) == key,
        !bucket_holds(bucket, added@),
    ensures
        bucket_fits(bucket.push(added), key),
{
    let longer = bucket.push(added);
    assert forall|i: int, j: int| 0 <= i < j < longer.len() implies #[trigger] longer[i]@
        != #[trigger] longer[j]@ by {
        if j < bucket.len() {
            assert(bucket[i]@ != bucket[j]@);
        } else {
            assert(bucket[i]@ != added@);
        }
    }
}

/// Looks for `record` among the records of `bucket`.
fn search_bucket(bucket: &Vec<Vec<u8>>, record: &[u8]) -> (found: bool)
    ensures
        found == bucket_holds(bucket@, record@),
{
    let mut at: usize = 0;
    while at < bucket.len()
        invariant
            at <= bucket.len(),
            forall|i: int| 0 <= i < at ==> #[trigger] bucket@[i]@ != record@,
        decreases bucket.len() - at,
    {
        if same_bytes(bucket[at].as_slice(), record) {
            return true;
        }
        at += 1;
    }
    false
}

/// Detects repeats by comparing records byte for byte.
///
/// The filter never mistakes one record for another. It pays for that with
/// memory: every distinct record is kept whole, once. Records are grouped by
/// their XXH3 digest, and a record is only ever compared with those of its
/// group.
#[derive(Debug)]
pub struct SimpleFilter {
    buckets: HashMap<u64, Vec<Vec<u8>>>,
}

impl View for SimpleFilter {
    type V = Set<Seq<u8>>;

    /// The records seen so far.
    closed spec fn view(&self) -> Set<Seq<u8>> {
        Set::new(
            |record: Seq<u8>|
                self.buckets@.contains_key(xxh3_64_of(record)) && bucket_holds(
                    self.buckets@[xxh3_64_of(record)]@,
                    record,
                ),
        )
    }
}

impl SimpleFilter {
    #[verifier::type_invariant]
    spec fn well_formed(&self) -> bool {
        forall|key: u64| #[trigger]
            self.buckets@.contains_key(key) ==> bucket_fits(self.buckets@[key]@, key)
    }

    /// Creates a filter that has seen no record.
    pub fn new() -> (filter: SimpleFilter)
        ensures
            filter@ == Set::<Seq<u8>>::empty(),
            forall|record: Seq<u8>| !filter.recalls(record),
    {
        let filter = SimpleFilter { buckets: HashMap::new() };
        assert(filter@ =~= Set::<Seq<u8>>::empty());
        filter
    }
}

impl Clone for SimpleFilter {
    fn clone(&self) -> (copy: SimpleFilter)
        ensures
            copy@ == self@,
    {
        proof {
            use_type_invariant(self);
        }
        SimpleFilter { buckets: self.buckets.clone() }
    }
}

impl Default for SimpleFilter {
    fn default() -> (filter: SimpleFilter)
        ensures
            filter@ == Set::<Seq<u8>>::empty(),
            forall|record: Seq<u8>| !filter.recalls(record),
    {
        SimpleFilter::new()
    }
}

impl Filter for SimpleFilter {
    open spec fn recalls(&self, record: Seq<u8>) -> bool {
        self@.contains(record)
    }

    open spec fn becomes(&self, input: Seq<u8>, after: &Self) -> bool {
        after@ == self@.insert(input)
    }

    fn detect(&mut self, input: &[u8]) -> (fresh: bool)
        ensures
            final(self)@ == old(self)@.insert(input@),
    {
        proof {
            use_type_invariant(&*self);
        }
        let key = xxh3_64(input);
        // The buckets are taken out of the filter while one of them is out
        // of the map, and put back when all of them fit again.
        let mut buckets: HashMap<u64, Vec<Vec<u8>>> = HashMap::new();
        std::mem::swap(&mut self.buckets, &mut buckets);
        let mut bucket = match buckets.remove(&key) {
            Some(bucket) => bucket,
            None => Vec::new(),
        };
        let ghost before = bucket@;
        let found = search_bucket(&bucket, input);
        if !found {
            let record = slice_to_vec(input);
            proof {
                lemma_push_fits(before, record, key);
                assert forall|other: Seq<u8>|
                    bucket_holds(before.push(record), other) == (bucket_holds(before, other)
                        || other == input@) by {
                    lemma_push_holds(before, record, other);
                }
            }
            bucket.push(record);
        }
        buckets.insert(key, bucket);
        self.buckets = buckets;
        proof {
            assert(final(self)@ =~= old(self)@.insert(input@));
        }
        !found
    }
}

} // verus!

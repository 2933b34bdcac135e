//! A filter backed by a scalable Bloom filter.

use super::Filter;
use crate::digest::xxh3_64_of;
use growable_bloom_filter::GrowableBloom;
use vstd::arithmetic::power::pow;
use vstd::prelude::*;
use xxhash_rust::xxh3::xxh3_64;

verus! {

/// The scalable Bloom filter of the `growable_bloom_filter` crate.
#[verifier::external_type_specification]
#[verifier::external_body]
pub struct ExGrowableBloom(GrowableBloom);

/// The layers of `bloom`, oldest first, each as the digests that it answers
/// for: those whose bits are all set in it, whether they were inserted or
/// are false positives.
pub uninterp spec fn bloom_layers(bloom: GrowableBloom) -> Seq<Set<u64>>;

/// The number of insertions that `bloom` has taken, as its `len` reports it.
pub uninterp spec fn bloom_len(bloom: GrowableBloom) -> nat;

/// The number of insertions that the layers of `bloom` are rated for, taken
/// together, as its `capacity` reports it.
pub uninterp spec fn bloom_capacity(bloom: GrowableBloom) -> nat;

/// The number of insertions that `bloom` was built to expect, for which it
/// rates its first layer.
pub uninterp spec fn bloom_estimate(bloom: GrowableBloom) -> nat;

/// The growth factor that `bloom` was built with: it rates each layer for
/// this many times the insertions of the one before.
pub uninterp spec fn bloom_growth(bloom: GrowableBloom) -> nat;

/// The number of insertions up to which `bloom` can grow: a filter in a
/// coherent state that has taken fewer can make and fill its next layer,
/// whose sizes are then positive and within the integers that hold them.
/// This number depends on the parameters that `bloom` was built with and on
/// the width of the machine's integers, not on what the filter holds.
pub uninterp spec fn bloom_limit(bloom: GrowableBloom) -> nat;

/// Whether the state of `bloom` is one that its own insertions lead to from
/// empty: it has the layers that its capacity accounts for, each sized as
/// the filter sizes a layer in that place, and has taken no more insertions
/// than the capacity. A filter put together in another way, such as by
/// deserializing, need not be in such a state.
pub uninterp spec fn bloom_is_coherent(bloom: GrowableBloom) -> bool;

/// The digests that a filter with the layers `layers` answers for: those
/// that one of the layers answers for.
pub open spec fn answered(layers: Seq<Set<u64>>) -> Set<u64> {
    Set::new(
        |digest: u64| exists|i: int| 0 <= i < layers.len() && #[trigger] layers[i].contains(digest),
    )
}

/// Whether `after` are the layers `before` once `digest` has been put into
/// the filter, in a new layer if it has `grown` and in the newest of the old
/// ones if not. Only that one layer takes the bits; the others are as they
/// were, in their places.
pub open spec fn layers_take(
    before: Seq<Set<u64>>,
    digest: u64,
    grown: bool,
    after: Seq<Set<u64>>,
) -> bool {
    if grown {
        &&& after.len() == before.len() + 1
        &&& after.drop_last() == before
        &&& after.last().contains(digest)
    } else {
        &&& after.len() == before.len()
        &&& after.len() > 0
        &&& after.drop_last() == before.drop_last()
        &&& before.last().insert(digest).subset_of(after.last())
    }
}

/// Layers that have taken a digest answer for it, and for all that they
/// answered for before.
pub proof fn lemma_layers_keep(
    before: Seq<Set<u64>>,
    digest: u64,
    grown: bool,
    after: Seq<Set<u64>>,
)
    requires
        layers_take(before, digest, grown, after),
    ensures
        answered(after).contains(digest),
        answered(before).subset_of(answered(after)),
{
    assert(after[after.len() - 1].contains(digest));
    assert forall|other: u64| answered(before).contains(other) implies answered(after).contains(
        other,
    ) by {
        let i = choose|i: int| 0 <= i < before.len() && #[trigger] before[i].contains(other);
        if grown {
            assert(after.drop_last()[i] == after[i]);
        } else if i < before.len() - 1 {
            assert(after.drop_last()[i] == after[i]);
            assert(before.drop_last()[i] == before[i]);
        } else {
            assert(after[i].contains(other));
        }
    }
}

/// The number of records that the first layer of the filter is sized for.
pub const ESTIMATED_INSERTIONS: usize = 1_000_000;

/// The filter errs on about one new record in this many.
pub const ERROR_ODDS: u32 = 100_000_000;

/// Each new layer is sized for this many times the records of the one before.
pub const GROWTH_FACTOR: usize = 2;

/// Each new layer is allowed the error ratio of the one before, divided by
/// this.
pub const TIGHTENING_DIVISOR: u32 = 2;

/// Whether `bloom` is built as a [`CompactFilter`] needs it: for
/// [`ESTIMATED_INSERTIONS`] records, with the growth factor
/// [`GROWTH_FACTOR`], and so that it can grow as far as [`layer_limit`].
pub open spec fn bloom_suits(bloom: GrowableBloom) -> bool {
    &&& bloom_estimate(bloom) == ESTIMATED_INSERTIONS
    &&& bloom_growth(bloom) == GROWTH_FACTOR
    &&& bloom_limit(bloom) >= layer_limit()
}

/// The number of records that a [`CompactFilter`] holds at most.
///
/// A Bloom filter built for [`ESTIMATED_INSERTIONS`] records, with an error
/// ratio of one in [`ERROR_ODDS`], the growth factor [`GROWTH_FACTOR`] and a
/// tightening ratio of one in [`TIGHTENING_DIVISOR`], can grow this far. It
/// makes layer `k` when it holds `ESTIMATED_INSERTIONS * (2^k - 1)` items,
/// and sizes it for `ESTIMATED_INSERTIONS * 2^k` items in `27 + k` slices,
/// whose bits it counts in `u64` and whose bytes must stay within
/// `isize::MAX`. Where `usize` has 32 bits, layer 9 is the first to need more
/// bytes than that; where it has 64, layer 38 is the first to need more bits
/// than a `u64` counts. The limit is the number of items at which that layer
/// would be made.
pub open spec fn layer_limit() -> nat {
    if usize::BITS == 32 {
        511_000_000
    } else {
        274_877_906_943_000_000
    }
}

/// `GrowableBloom::clear` drops every layer and resets the count of
/// insertions and the capacity, which is the state of a filter that was
/// just built. The parameters stay as they were, and with them the limit.
#[verifier::external_body]
fn bloom_clear(bloom: &mut GrowableBloom)
    ensures
        bloom_layers(*final(bloom)) == Seq::<Set<u64>>::empty(),
        bloom_len(*final(bloom)) == 0,
        bloom_capacity(*final(bloom)) == 0,
        bloom_estimate(*final(bloom)) == bloom_estimate(*old(bloom)),
        bloom_growth(*final(bloom)) == bloom_growth(*old(bloom)),
        bloom_limit(*final(bloom)) == bloom_limit(*old(bloom)),
        bloom_is_coherent(*final(bloom)),
{
    bloom.clear()
}

/// `GrowableBloom::len` returns the number of insertions taken so far.
#[verifier::external_body]
fn bloom_count(bloom: &GrowableBloom) -> (count: usize)
    ensures
        count == bloom_len(*bloom),
{
    bloom.len()
}

/// `GrowableBloom::capacity` returns the number of insertions that the layers
/// are rated for together.
#[verifier::external_body]
fn bloom_rating(bloom: &GrowableBloom) -> (rating: usize)
    ensures
        rating == bloom_capacity(*bloom),
{
    bloom.capacity()
}

/// `GrowableBloom::insert` first asks every layer for the item. If one
/// answers, it changes nothing and returns `false`. Otherwise it looks
/// whether the insertions taken so far have used up the capacity. If so, it
/// appends a layer, rated for the estimate times the growth factor to the
/// power of the number of layers there were, and adds that to the capacity.
/// Then it sets the item's bits in the newest layer and in no other, counts
/// the insertion and returns `true`. Bits are never cleared, and layers are
/// never removed or moved.
///
/// On a filter whose state is not coherent the call can panic for want of a
/// layer, and appending a layer panics when its size leaves the range of the
/// integers that hold it, which is what [`bloom_limit`] rules out. The
/// parameters are not touched.
#[verifier::external_body]
fn bloom_insert(bloom: &mut GrowableBloom, item: u64) -> (fresh: bool)
    requires
        bloom_is_coherent(*old(bloom)),
        bloom_len(*old(bloom)) < bloom_limit(*old(bloom)),
    ensures
        fresh == !answered(bloom_layers(*old(bloom))).contains(item),
        !fresh ==> bloom_layers(*final(bloom)) == bloom_layers(*old(bloom)),
        !fresh ==> bloom_len(*final(bloom)) == bloom_len(*old(bloom)),
        !fresh ==> bloom_capacity(*final(bloom)) == bloom_capacity(*old(bloom)),
        fresh ==> layers_take(
            bloom_layers(*old(bloom)),
            item,
            bloom_len(*old(bloom)) >= bloom_capacity(*old(bloom)),
            bloom_layers(*final(bloom)),
        ),
        fresh ==> bloom_len(*final(bloom)) == bloom_len(*old(bloom)) + 1,
        fresh && bloom_len(*old(bloom)) >= bloom_capacity(*old(bloom)) ==> bloom_capacity(
            *final(bloom),
        ) == bloom_capacity(*old(bloom)) + bloom_estimate(*old(bloom)) * pow(
            bloom_growth(*old(bloom)) as int,
            bloom_layers(*old(bloom)).len(),
        ),
        fresh && bloom_len(*old(bloom)) < bloom_capacity(*old(bloom)) ==> bloom_capacity(
            *final(bloom),
        ) == bloom_capacity(*old(bloom)),
        bloom_estimate(*final(bloom)) == bloom_estimate(*old(bloom)),
        bloom_growth(*final(bloom)) == bloom_growth(*old(bloom)),
        bloom_limit(*final(bloom)) == bloom_limit(*old(bloom)),
        bloom_is_coherent(*final(bloom)),
    no_unwind
{
    bloom.insert(item)
}

/// Detects repeats with a scalable Bloom filter over XXH3 digests.
///
/// The filter never takes a repeat for a new record. It may take a new record
/// for a repeat, with the small probability that its parameters allow, and
/// it needs far less memory than a set of digests.
///
/// Once it holds [`layer_limit`] records the filter is full: it learns
/// nothing more and takes every record for a repeat.
#[derive(Debug)]
pub struct CompactFilter {
    inner: GrowableBloom,
}

impl View for CompactFilter {
    type V = Set<u64>;

    /// The digests that the filter answers for: those that one of its layers
    /// answers for.
    open spec fn view(&self) -> Set<u64> {
        answered(self.layers())
    }
}

impl CompactFilter {
    #[verifier::type_invariant]
    spec fn sound(&self) -> bool {
        bloom_is_coherent(self.inner) && bloom_suits(self.inner)
    }

    /// The layers of the filter, oldest first, each as the digests that it
    /// answers for.
    pub closed spec fn layers(&self) -> Seq<Set<u64>> {
        bloom_layers(self.inner)
    }

    /// The number of records that the filter has taken for new.
    pub closed spec fn admitted(&self) -> nat {
        bloom_len(self.inner)
    }

    /// The number of records that the filter has taken for new.
    pub fn len(&self) -> (count: usize)
        ensures
            count == self.admitted(),
    {
        bloom_count(&self.inner)
    }

    /// The number of records that the layers of the filter are rated for,
    /// taken together.
    pub closed spec fn rated(&self) -> nat {
        bloom_capacity(self.inner)
    }

    /// The number of records that the layers of the filter are rated for,
    /// taken together.
    pub fn capacity(&self) -> (count: usize)
        ensures
            count == self.rated(),
    {
        bloom_rating(&self.inner)
    }

    /// Whether the filter has reached the number of records it can hold.
    pub open spec fn spec_is_full(&self) -> bool {
        self.admitted() >= layer_limit()
    }

    /// Whether the filter has reached the number of records it can hold.
    #[verifier::when_used_as_spec(spec_is_full)]
    pub fn is_full(&self) -> (full: bool)
        ensures
            full == self.spec_is_full(),
    {
        bloom_count(&self.inner) as u64 >= Self::limit()
    }

    /// Whether the filter finds a record with the digest `digest` new: it is
    /// not full, and none of its layers answers for the digest.
    pub open spec fn admits(&self, digest: u64) -> bool {
        !self.is_full() && !self@.contains(digest)
    }

    /// Whether the filter, once it has been shown a record with the digest
    /// `digest`, may be the filter `after`.
    ///
    /// A record that is not new changes nothing. A new one is counted. Where
    /// the records counted before have used up what the layers are rated
    /// for, it goes into a layer of its own, added behind the others and
    /// rated for [`ESTIMATED_INSERTIONS`] times [`GROWTH_FACTOR`] to the
    /// power of their number. Otherwise it goes into the newest layer. The
    /// other layers stay as they were, so the filter answers for the digest
    /// and still for all that it answered for before.
    pub open spec fn takes(&self, digest: u64, after: &CompactFilter) -> bool {
        let grown = self.admitted() >= self.rated();
        if self.admits(digest) {
            &&& after@.contains(digest)
            &&& self@.subset_of(after@)
            &&& after.admitted() == self.admitted() + 1
            &&& layers_take(self.layers(), digest, grown, after.layers())
            &&& grown ==> after.rated() == self.rated() + ESTIMATED_INSERTIONS * pow(
                GROWTH_FACTOR as int,
                self.layers().len(),
            )
            &&& !grown ==> after.rated() == self.rated()
        } else {
            &&& after.admitted() == self.admitted()
            &&& after.layers() == self.layers()
            &&& after.rated() == self.rated()
        }
    }

    /// Creates a filter around `bloom`, emptied of whatever it held.
    ///
    /// The Bloom filter must be built as [`bloom_suits`] says; one built
    /// with the parameters named at [`layer_limit`] is.
    pub fn new(bloom: GrowableBloom) -> (filter: CompactFilter)
        requires
            bloom_suits(bloom),
        ensures
            filter.layers() == Seq::<Set<u64>>::empty(),
            filter@ == Set::<u64>::empty(),
            filter.admitted() == 0,
            filter.rated() == 0,
            forall|record: Seq<u8>| !filter.recalls(record),
    {
        let mut bloom = bloom;
        bloom_clear(&mut bloom);
        let filter = CompactFilter { inner: bloom };
        assert(filter@ =~= Set::<u64>::empty());
        filter
    }

    /// Looks at one record by its digest and remembers it.
    ///
    /// Returns `true` when the filter is not full and does not answer for
    /// `digest`, and `false` otherwise. What becomes of the filter is said
    /// by [`CompactFilter::takes`]. It follows that a filter that is not
    /// full answers for `digest` afterwards, and still for all that it
    /// answered for before, and that a record that is not new changes
    /// nothing.
    pub fn detect_digest(&mut self, digest: u64) -> (fresh: bool)
        ensures
            fresh == old(self).admits(digest),
            old(self).takes(digest, final(self)),
            !old(self).is_full() ==> final(self)@.contains(digest),
            old(self)@.subset_of(final(self)@),
            !fresh ==> final(self)@ == old(self)@,
    {
        proof {
            use_type_invariant(&*self);
        }
        if self.is_full() {
            return false;
        }
        let fresh = bloom_insert(&mut self.inner, digest);
        proof {
            if fresh {
                lemma_layers_keep(
                    old(self).layers(),
                    digest,
                    old(self).admitted() >= old(self).rated(),
                    self.layers(),
                );
            }
        }
        fresh
    }

    /// The number of records that a filter can hold, on this machine.
    fn limit() -> (limit: u64)
        ensures
            limit == layer_limit(),
    {
        if usize::BITS == 32 {
            511_000_000
        } else {
            274_877_906_943_000_000
        }
    }
}

impl Filter for CompactFilter {
    open spec fn recalls(&self, record: Seq<u8>) -> bool {
        self.is_full() || self@.contains(xxh3_64_of(record))
    }

    open spec fn becomes(&self, input: Seq<u8>, after: &Self) -> bool {
        self.takes(xxh3_64_of(input), after)
    }

    fn detect(&mut self, input: &[u8]) -> (fresh: bool)
        ensures
            !old(self).is_full() ==> final(self)@.contains(xxh3_64_of(input@)),
            old(self)@.subset_of(final(self)@),
            !fresh ==> final(self)@ == old(self)@,
    {
        self.detect_digest(xxh3_64(input))
    }
}

} // verus!

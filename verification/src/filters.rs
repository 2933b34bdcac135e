//! Strategies that tell a first sighting of a record from a repeat.
//!
//! Every strategy implements [`Filter`]. What a strategy takes for "the same
//! record" is its own business and is stated by its `recalls` predicate.

use self::compact::{bloom_suits, CompactFilter};
use self::quick::QuickFilter;
use self::simple::SimpleFilter;
use self::sorted::SortedFilter;
use growable_bloom_filter::GrowableBloom;
use vstd::prelude::*;

pub mod compact;
pub mod quick;
pub mod simple;
pub mod sorted;

verus! {

/// A detector of records that have been seen before.
pub trait Filter {
    /// Whether the filter takes `record` for one it has already seen.
    spec fn recalls(&self, record: Seq<u8>) -> bool;

    /// Whether the filter, once it has been shown `input`, may be the filter
    /// `after`: what the strategy does to its memory when it sees a record.
    spec fn becomes(&self, input: Seq<u8>, after: &Self) -> bool;

    /// Looks at one record and remembers it.
    ///
    /// Returns `true` when the record is new to the filter and `false` when
    /// the filter takes it for a repeat. Either way the filter recalls the
    /// record afterwards, and a repeat leaves what the filter recalls as it
    /// was. What else the filter recalls afterwards is for its strategy to
    /// say, in `becomes`.
    fn detect(&mut self, input: &[u8]) -> (fresh: bool)
        ensures
            fresh == !old(self).recalls(input@),
            final(self).recalls(input@),
            !fresh ==> forall|record: Seq<u8>|
                final(self).recalls(record) == old(self).recalls(record),
            old(self).becomes(input@, final(self)),
    ;
}

/// The strategies to choose from.
#[derive(Copy, Clone, Debug, PartialEq, Eq, Structural)]
pub enum Filters {
    /// Compares digests; fast, and exact but for digest collisions.
    Quick,
    /// Compares whole records; exact, at the cost of memory.
    Simple,
    /// Compares neighbours only; for sorted input.
    Sorted,
    /// Asks a Bloom filter; the least memory, with rare false repeats.
    Compact,
}

/// A filter of any of the strategies that [`Filters`] names.
#[derive(Debug)]
pub enum AnyFilter {
    /// A [`QuickFilter`].
    Quick(QuickFilter),
    /// A [`SimpleFilter`].
    Simple(SimpleFilter),
    /// A [`SortedFilter`].
    Sorted(SortedFilter),
    /// A [`CompactFilter`].
    Compact(CompactFilter),
}

impl AnyFilter {
    /// The strategy that the filter follows.
    pub open spec fn kind(&self) -> Filters {
        match self {
            AnyFilter::Quick(_) => Filters::Quick,
            AnyFilter::Simple(_) => Filters::Simple,
            AnyFilter::Sorted(_) => Filters::Sorted,
            AnyFilter::Compact(_) => Filters::Compact,
        }
    }

    /// Whether the filter is as its strategy makes it: with nothing in its
    /// memory.
    pub open spec fn is_new(&self) -> bool {
        match self {
            AnyFilter::Quick(filter) => filter@ == Set::<u64>::empty(),
            AnyFilter::Simple(filter) => filter@ == Set::<Seq<u8>>::empty(),
            AnyFilter::Sorted(filter) => filter@ is None,
            AnyFilter::Compact(filter) => {
                &&& filter.layers() == Seq::<Set<u64>>::empty()
                &&& filter.admitted() == 0
                &&& filter.rated() == 0
            },
        }
    }

    /// Creates a filter of the strategy `kind` that has seen no record.
    ///
    /// A compact filter is built around `bloom`, which must meet what
    /// [`CompactFilter::new`] asks of it; the other strategies leave it
    /// unused.
    pub fn new(kind: Filters, bloom: GrowableBloom) -> (filter: AnyFilter)
        requires
            kind == Filters::Compact ==> bloom_suits(bloom),
        ensures
            filter.kind() == kind,
            filter.is_new(),
            forall|record: Seq<u8>| !filter.recalls(record),
    {
        match kind {
            Filters::Quick => AnyFilter::Quick(QuickFilter::new()),
            Filters::Simple => AnyFilter::Simple(SimpleFilter::new()),
            Filters::Sorted => AnyFilter::Sorted(SortedFilter::new()),
            Filters::Compact => AnyFilter::Compact(CompactFilter::new(bloom)),
        }
    }
}

impl Filter for AnyFilter {
    open spec fn recalls(&self, record: Seq<u8>) -> bool {
        match self {
            AnyFilter::Quick(filter) => filter.recalls(record),
            AnyFilter::Simple(filter) => filter.recalls(record),
            AnyFilter::Sorted(filter) => filter.recalls(record),
            AnyFilter::Compact(filter) => filter.recalls(record),
        }
    }

    open spec fn becomes(&self, input: Seq<u8>, after: &Self) -> bool {
        match (self, after) {
            (AnyFilter::Quick(before), AnyFilter::Quick(after)) => before.becomes(input, after),
            (AnyFilter::Simple(before), AnyFilter::Simple(after)) => before.becomes(input, after),
            (AnyFilter::Sorted(before), AnyFilter::Sorted(after)) => before.becomes(input, after),
            (AnyFilter::Compact(before), AnyFilter::Compact(after)) => before.becomes(
                input,
                after,
            ),
            _ => false,
        }
    }

    fn detect(&mut self, input: &[u8]) -> (fresh: bool)
        ensures
            final(self).kind() == old(self).kind(),
    {
        match self {
            AnyFilter::Quick(filter) => filter.detect(input),
            AnyFilter::Simple(filter) => filter.detect(input),
            AnyFilter::Sorted(filter) => filter.detect(input),
            AnyFilter::Compact(filter) => filter.detect(input),
        }
    }
}

/// Whether two byte strings hold the same bytes.
pub(crate) fn same_bytes(left: &[u8], right: &[u8]) -> (same: bool)
    ensures
        same == (left@ == right@),
{
    if left.len() != right.len() {
        return false;
    }
    let mut at: usize = 0;
    while at < left.len()
        invariant
            at <= left.len(),
            left.len() == right.len(),
            forall|i: int| 0 <= i < at ==> left@[i] == right@[i],
        decreases left.len() - at,
    {
        if left[at] != right[at] {
            return false;
        }
        at += 1;
    }
    assert(left@ =~= right@);
    true
}

} // verus!

//! Filters for records that are text.
//!
//! These take a record as a `&str` and otherwise work as the byte filters of
//! [`crate::filters`] do.

use self::digest::DigestFilter;
use self::naive::NaiveFilter;
use vstd::prelude::*;

pub mod consecutive;
pub mod digest;
pub mod naive;

verus! {

/// A detector of text records that have been seen before.
pub trait Filter {
    /// Whether the filter takes `text` for a record it has already seen.
    spec fn recalls(&self, text: Seq<char>) -> bool;

    /// Creates a filter that has seen no record.
    fn new() -> (filter: Self) where Self: Sized
        ensures
            forall|text: Seq<char>| !filter.recalls(text),
    ;

    /// Whether the filter, once it has been shown `input`, may be the filter
    /// `after`: what the filter does to its memory when it sees a record.
    spec fn becomes(&self, input: Seq<char>, after: &Self) -> bool;

    /// Looks at one record and remembers it.
    ///
    /// Returns `true` when the record is new to the filter and `false` when
    /// the filter takes it for a repeat. Either way the filter recalls the
    /// record afterwards, and a repeat leaves what the filter recalls as it
    /// was. What else the filter recalls afterwards is for the filter to
    /// say, in `becomes`.
    fn detect(&mut self, input: &str) -> (fresh: bool)
        ensures
            fresh == !old(self).recalls(input@),
            final(self).recalls(input@),
            !fresh ==> forall|text: Seq<char>| final(self).recalls(text) == old(self).recalls(text),
            old(self).becomes(input@, final(self)),
    ;
}

/// Whether `detect` may take the filter `before` and the record `text` to the
/// answer `fresh` and the filter `after`: what [`Filter::detect`] promises of
/// every call.
pub open spec fn detection<F: Filter>(before: F, text: Seq<char>, fresh: bool, after: F) -> bool {
    &&& fresh == !before.recalls(text)
    &&& after.recalls(text)
    &&& !fresh ==> forall|other: Seq<char>| after.recalls(other) == before.recalls(other)
    &&& before.becomes(text, &after)
}

/// A filter that recalls nothing finds the first record it is shown new,
/// whichever record that is.
pub proof fn lemma_first_record_is_fresh<F: Filter>(
    before: F,
    text: Seq<char>,
    fresh: bool,
    after: F,
)
    requires
        forall|any: Seq<char>| !before.recalls(any),
        detection(before, text, fresh, after),
    ensures
        fresh,
{
}

/// A record shown to a filter twice in a row is a repeat the second time,
/// whatever the filter had seen before.
pub proof fn lemma_repeat_is_not_fresh<F: Filter>(
    before: F,
    text: Seq<char>,
    first: bool,
    between: F,
    second: bool,
    after: F,
)
    requires
        detection(before, text, first, between),
        detection(between, text, second, after),
    ensures
        !second,
        forall|other: Seq<char>| after.recalls(other) == between.recalls(other),
{
}

/// The text filters to choose from.
#[derive(Copy, Clone, Debug, PartialEq, Eq, Structural)]
pub enum FilterKind {
    /// Compares digests.
    Digest,
    /// Compares whole records.
    Naive,
}

/// A text filter of either kind that [`FilterKind`] names.
pub enum AnyFilter {
    /// A [`DigestFilter`].
    Digest(DigestFilter),
    /// A [`NaiveFilter`].
    Naive(NaiveFilter),
}

impl AnyFilter {
    /// The kind of the filter.
    pub open spec fn kind(&self) -> FilterKind {
        match self {
            AnyFilter::Digest(_) => FilterKind::Digest,
            AnyFilter::Naive(_) => FilterKind::Naive,
        }
    }

    /// Whether the filter takes `text` for a record it has already seen.
    pub open spec fn recalls(&self, text: Seq<char>) -> bool {
        match self {
            AnyFilter::Digest(filter) => filter.recalls(text),
            AnyFilter::Naive(filter) => filter.recalls(text),
        }
    }

    /// Whether the filter, once it has been shown `input`, may be the filter
    /// `after`: a filter of the same kind, as that kind says.
    pub open spec fn becomes(&self, input: Seq<char>, after: &Self) -> bool {
        match (self, after) {
            (AnyFilter::Digest(before), AnyFilter::Digest(after)) => before.becomes(input, after),
            (AnyFilter::Naive(before), AnyFilter::Naive(after)) => before.becomes(input, after),
            _ => false,
        }
    }

    /// Whether the filter is as its kind makes it: with nothing in its
    /// memory.
    pub open spec fn is_new(&self) -> bool {
        match self {
            AnyFilter::Digest(filter) => filter@ == Set::<u64>::empty(),
            AnyFilter::Naive(filter) => filter@ == Set::<Seq<char>>::empty(),
        }
    }

    /// Creates a filter of the kind `kind` that has seen no record.
    pub fn new(kind: FilterKind) -> (filter: AnyFilter)
        ensures
            filter.kind() == kind,
            filter.is_new(),
            forall|text: Seq<char>| !filter.recalls(text),
    {
        match kind {
            FilterKind::Digest => AnyFilter::Digest(DigestFilter::new()),
            FilterKind::Naive => AnyFilter::Naive(NaiveFilter::new()),
        }
    }

    /// Looks at one record and remembers it, as [`Filter::detect`] does.
    pub fn detect(&mut self, input: &str) -> (fresh: bool)
        ensures
            final(self).kind() == old(self).kind(),
            fresh == !old(self).recalls(input@),
            final(self).recalls(input@),
            !fresh ==> forall|text: Seq<char>| final(self).recalls(text) == old(self).recalls(text),
            old(self).becomes(input@, final(self)),
    {
        match self {
            AnyFilter::Digest(filter) => filter.detect(input),
            AnyFilter::Naive(filter) => filter.detect(input),
        }
    }
}

} // verus!

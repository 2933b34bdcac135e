//! A filter for input whose repeats stand next to each other.

use super::{same_bytes, Filter};
use vstd::prelude::*;
use vstd::slice::slice_to_vec;

verus! {

/// Detects a record only when it repeats the one just before it.
///
/// The filter keeps a single record, so its memory does not grow with the
/// stream. It finds every repeat only where equal records are adjacent, as
/// they are in sorted input.
#[derive(Debug)]
pub struct SortedFilter {
    last: Option<Vec<u8>>,
}

impl View for SortedFilter {
    type V = Option<Seq<u8>>;

    /// The record seen last, if any.
    closed spec fn view(&self) -> Option<Seq<u8>> {
        match self.last {
            Some(record) => Some(record@),
            None => None,
        }
    }
}

impl SortedFilter {
    /// Creates a filter that has seen no record.
    pub fn new() -> (filter: SortedFilter)
        ensures
            filter@ is None,
            forall|record: Seq<u8>| !filter.recalls(record),
    {
        SortedFilter { last: None }
    }
}

impl Clone for SortedFilter {
    fn clone(&self) -> (copy: SortedFilter)
        ensures
            copy@ == self@,
    {
        match &self.last {
            Some(record) => SortedFilter { last: Some(slice_to_vec(record.as_slice())) },
            None => SortedFilter { last: None },
        }
    }
}

impl Default for SortedFilter {
    fn default() -> (filter: SortedFilter)
        ensures
            filter@ is None,
            forall|record: Seq<u8>| !filter.recalls(record),
    {
        SortedFilter::new()
    }
}

impl Filter for SortedFilter {
    open spec fn recalls(&self, record: Seq<u8>) -> bool {
        self@ == Some(record)
    }

    open spec fn becomes(&self, input: Seq<u8>, after: &Self) -> bool {
        after@ == Some(input)
    }

    fn detect(&mut self, input: &[u8]) -> (fresh: bool)
        ensures
            final(self)@ == Some(input@),
    {
        let repeated = match &self.last {
            Some(previous) => same_bytes(previous.as_slice(), input),
            None => false,
        };
        if repeated {
            return false;
        }
        self.last = Some(slice_to_vec(input));
        true
    }
}

} // verus!

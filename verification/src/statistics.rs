//! Counters kept while a stream of records is filtered.

use vstd::prelude::*;

verus! {

/// Running totals of a filtered stream: how many records came in, how many of
/// them were unique, and how many bytes they took.
///
/// The unique records never outnumber the records in all.
#[derive(Debug)]
pub struct Stats {
    unique: u64,
    total: u64,
    size: u64,
}

impl Stats {
    #[verifier::type_invariant]
    pub closed spec fn well_formed(&self) -> bool {
        self.unique <= self.total
    }

    /// The number of records counted as unique.
    pub closed spec fn unique_count(&self) -> nat {
        self.unique as nat
    }

    /// The number of records counted as duplicates.
    pub closed spec fn duplicate_count(&self) -> nat {
        (self.total - self.unique) as nat
    }

    /// The number of records counted in all.
    pub closed spec fn total_count(&self) -> nat {
        self.total as nat
    }

    /// The number of bytes counted.
    pub closed spec fn byte_count(&self) -> nat {
        self.size as nat
    }

    /// Creates a container with every counter at zero.
    pub fn new() -> (stats: Stats)
        ensures
            stats.unique_count() == 0,
            stats.duplicate_count() == 0,
            stats.total_count() == 0,
            stats.byte_count() == 0,
    {
        Stats { unique: 0, total: 0, size: 0 }
    }

    /// Counts one unique record.
    pub fn add_unique(&mut self)
        requires
            old(self).total_count() < u64::MAX,
        ensures
            final(self).unique_count() == old(self).unique_count() + 1,
            final(self).duplicate_count() == old(self).duplicate_count(),
            final(self).total_count() == old(self).total_count() + 1,
            final(self).byte_count() == old(self).byte_count(),
    {
        proof {
            use_type_invariant(&*self);
        }
        self.total += 1;
        self.unique += 1;
    }

    /// Counts one duplicate record.
    pub fn add_duplicate(&mut self)
        requires
            old(self).total_count() < u64::MAX,
        ensures
            final(self).unique_count() == old(self).unique_count(),
            final(self).duplicate_count() == old(self).duplicate_count() + 1,
            final(self).total_count() == old(self).total_count() + 1,
            final(self).byte_count() == old(self).byte_count(),
    {
        proof {
            use_type_invariant(&*self);
        }
        self.total += 1;
    }

    /// Counts `size` bytes of input.
    pub fn add_size(&mut self, size: usize)
        requires
            old(self).byte_count() + size <= u64::MAX,
        ensures
            final(self).unique_count() == old(self).unique_count(),
            final(self).duplicate_count() == old(self).duplicate_count(),
            final(self).total_count() == old(self).total_count(),
            final(self).byte_count() == old(self).byte_count() + size,
    {
        proof {
            use_type_invariant(&*self);
        }
        self.size += size as u64
    }

    /// The number of records counted as duplicates: all those that were not
    /// unique.
    pub fn duplicates(&self) -> (count: u64)
        ensures
            count == self.duplicate_count(),
            count == self.total_count() - self.unique_count(),
    {
        proof {
            use_type_invariant(self);
        }
        self.total - self.unique
    }

    /// The number of bytes counted.
    pub fn size(&self) -> (count: u64)
        ensures
            count == self.byte_count(),
    {
        self.size
    }

    /// The number of records counted in all.
    pub fn total(&self) -> (count: u64)
        ensures
            count == self.total_count(),
    {
        self.total
    }

    /// The number of records counted as unique.
    pub fn uniques(&self) -> (count: u64)
        ensures
            count == self.unique_count(),
    {
        self.unique
    }
}

impl Default for Stats {
    fn default() -> (stats: Stats)
        ensures
            stats.unique_count() == 0,
            stats.duplicate_count() == 0,
            stats.total_count() == 0,
            stats.byte_count() == 0,
    {
        Stats::new()
    }
}

/// The records counted in all are the unique ones and the duplicates
/// together, whatever was counted and in whatever order.
pub proof fn lemma_total_is_uniques_and_duplicates(stats: Stats)
    requires
        stats.well_formed(),
    ensures
        stats.total_count() == stats.unique_count() + stats.duplicate_count(),
{
}

} // verus!

//! What a run does with each record.
//!
//! Reading records and writing them out is left to the caller. The decisions
//! in between are made here: a caller hands every record to [`process`], in
//! the order of the stream, and writes out those for which it returns `true`.

use crate::filters::Filter;
use crate::options::Options;
use crate::statistics::Stats;
use vstd::prelude::*;

verus! {

/// Whether a run with the settings `options` writes out a record that its
/// filter found new (`fresh`) or known.
///
/// A run that counts writes nothing. Any other run writes the new records,
/// or, when inverted, the repeats.
pub open spec fn emits(options: &Options, fresh: bool) -> bool {
    !options.statistics && fresh != options.inverted
}

/// Whether `after` is `before` with one more record of `length` bytes and its
/// line terminator counted, as unique if `fresh` and as a duplicate if not.
pub open spec fn counted(before: &Stats, after: &Stats, length: nat, fresh: bool) -> bool {
    &&& after.total_count() == before.total_count() + 1
    &&& after.unique_count() == before.unique_count() + if fresh { 1nat } else { 0nat }
    &&& after.duplicate_count() == before.duplicate_count() + if fresh { 0nat } else { 1nat }
    &&& after.byte_count() == before.byte_count() + length + 1
}

/// Whether `after` counts what `before` counts.
pub open spec fn untouched(before: &Stats, after: &Stats) -> bool {
    &&& after.total_count() == before.total_count()
    &&& after.unique_count() == before.unique_count()
    &&& after.duplicate_count() == before.duplicate_count()
    &&& after.byte_count() == before.byte_count()
}

/// Takes one record of the stream through the filter and decides its fate.
///
/// The filter sees the record in every case, and is afterwards what its
/// strategy makes of it. A run that counts then adds the record to `stats`
/// and writes nothing. Any other run leaves `stats` alone and returns whether
/// the record is to be written out.
pub fn process<F: Filter>(
    filter: &mut F,
    stats: &mut Stats,
    options: &Options,
    record: &[u8],
) -> (emit: bool)
    requires
        options.statistics ==> old(stats).total_count() < u64::MAX,
        options.statistics ==> old(stats).byte_count() + record@.len() + 1 <= u64::MAX,
    ensures
        emit == emits(options, !old(filter).recalls(record@)),
        final(filter).recalls(record@),
        old(filter).recalls(record@) ==> forall|other: Seq<u8>|
            final(filter).recalls(other) == old(filter).recalls(other),
        old(filter).becomes(record@, final(filter)),
        options.statistics ==> counted(
            old(stats),
            final(stats),
            record@.len(),
            !old(filter).recalls(record@),
        ),
        !options.statistics ==> untouched(old(stats), final(stats)),
{
    if options.statistics {
        stats.add_size(record.len());
        stats.add_size(1);
    }
    let fresh = filter.detect(record);
    if options.statistics {
        if fresh {
            stats.add_unique();
        } else {
            stats.add_duplicate();
        }
        false
    } else {
        fresh != options.inverted
    }
}

} // verus!

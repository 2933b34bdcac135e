//! What holds of every filter, stated and proved once.
//!
//! The laws speak of filters as values: of a filter before a call of
//! [`Filter::detect`], the record handed to it, what the call returned and the
//! filter after it. [`detection`] says when four such values fit together.
//! The laws on runs speak of what the set-backed filters and the compact
//! filter promise on top of that, in their `becomes`.

use crate::digest::xxh3_64_of;
use crate::filters::compact::{CompactFilter, ESTIMATED_INSERTIONS, GROWTH_FACTOR};
use crate::filters::quick::QuickFilter;
use crate::filters::simple::SimpleFilter;
use crate::filters::Filter;
use vstd::arithmetic::power::{lemma_pow0, lemma_pow1, pow};
use vstd::prelude::*;
use vstd::seq_lib::{seq_to_set_is_finite, to_multiset_contains};

verus! {

/// Whether `detect` may take the filter `before` and the record `record` to
/// the answer `fresh` and the filter `after`: what [`Filter::detect`]
/// promises of every call.
pub open spec fn detection<F: Filter>(before: F, record: Seq<u8>, fresh: bool, after: F) -> bool {
    &&& fresh == !before.recalls(record)
    &&& after.recalls(record)
    &&& !fresh ==> forall|other: Seq<u8>| after.recalls(other) == before.recalls(other)
    &&& before.becomes(record, &after)
}

/// A filter that recalls nothing finds the first record it is shown new,
/// whichever record that is.
pub proof fn lemma_first_record_is_fresh<F: Filter>(
    before: F,
    record: Seq<u8>,
    fresh: bool,
    after: F,
)
    requires
        forall|any: Seq<u8>| !before.recalls(any),
        detection(before, record, fresh, after),
    ensures
        fresh,
{
}

/// A record shown to a filter twice in a row is a repeat the second time,
/// whatever the filter had seen before.
pub proof fn lemma_repeat_is_not_fresh<F: Filter>(
    before: F,
    record: Seq<u8>,
    first: bool,
    between: F,
    second: bool,
    after: F,
)
    requires
        detection(before, record, first, between),
        detection(between, record, second, after),
    ensures
        !second,
        forall|other: Seq<u8>| after.recalls(other) == between.recalls(other),
{
}

/// The number of keys of `keys` that a set-backed filter finds new, when it
/// starts out knowing the keys in `seen` and is shown `keys` from first to
/// last: a key is new unless it is in the set, and is in the set afterwards.
pub open spec fn fresh_count<K>(seen: Set<K>, keys: Seq<K>) -> nat
    decreases keys.len(),
{
    if keys.len() == 0 {
        0
    } else {
        let rest = fresh_count(seen.insert(keys[0]), keys.drop_first());
        if seen.contains(keys[0]) {
            rest
        } else {
            rest + 1
        }
    }
}

/// The keys of `keys` that are not in `seen`.
pub open spec fn unseen<K>(seen: Set<K>, keys: Seq<K>) -> Set<K> {
    keys.to_set().difference(seen)
}

/// A set-backed filter finds as many keys new as there are distinct keys
/// that it did not know.
pub proof fn lemma_fresh_count_is_unseen_len<K>(seen: Set<K>, keys: Seq<K>)
    ensures
        unseen(seen, keys).finite(),
        fresh_count(seen, keys) == unseen(seen, keys).len(),
    decreases keys.len(),
{
    seq_to_set_is_finite(keys);
    if keys.len() == 0 {
        assert(unseen(seen, keys) =~= Set::<K>::empty());
    } else {
        let key = keys[0];
        let rest = keys.drop_first();
        lemma_fresh_count_is_unseen_len(seen.insert(key), rest);
        assert forall|k: K| keys.contains(k) == (k == key || rest.contains(k)) by {
            if keys.contains(k) {
                let i = choose|i: int| 0 <= i < keys.len() && keys[i] == k;
                if i > 0 {
                    assert(rest[i - 1] == k);
                }
            }
            if rest.contains(k) {
                let i = choose|i: int| 0 <= i < rest.len() && rest[i] == k;
                assert(keys[i + 1] == k);
            }
            if k == key {
                assert(keys[0] == k);
            }
        }
        if seen.contains(key) {
            assert(seen.insert(key) =~= seen);
            assert(unseen(seen, keys) =~= unseen(seen.insert(key), rest));
        } else {
            assert(unseen(seen, keys) =~= unseen(seen.insert(key), rest).insert(key));
        }
    }
}

/// Whether a set-backed filter that is shown `keys` from first to last may
/// go through the sets `states` and give the answers `answers`: every answer
/// says whether the key was missing from the set before it, and every set is
/// the one before it with the key added. This is what [`SimpleFilter`] and
/// [`QuickFilter`] promise of each call of `detect`, the first over whole
/// records and the second over their digests.
///
/// [`SimpleFilter`]: crate::SimpleFilter
/// [`QuickFilter`]: crate::QuickFilter
pub open spec fn set_run<K>(states: Seq<Set<K>>, keys: Seq<K>, answers: Seq<bool>) -> bool {
    &&& states.len() == keys.len() + 1
    &&& answers.len() == keys.len()
    &&& forall|i: int|
        0 <= i < keys.len() ==> {
            &&& #[trigger] answers[i] == !states[i].contains(keys[i])
            &&& states[i + 1] == states[i].insert(keys[i])
        }
}

/// In a run, a key that was shown once is in every later set, so whenever it
/// is shown again the answer is `false`.
pub proof fn lemma_run_never_forgets<K>(
    states: Seq<Set<K>>,
    keys: Seq<K>,
    answers: Seq<bool>,
    earlier: int,
    later: int,
)
    requires
        set_run(states, keys, answers),
        0 <= earlier < later < keys.len(),
        keys[earlier] == keys[later],
    ensures
        !answers[later],
    decreases later - earlier,
{
    lemma_run_keeps(states, keys, answers, earlier + 1, later, keys[earlier]);
    assert(answers[later] == !states[later].contains(keys[later]));
}

/// In a run, what is in one set is in every set after it.
proof fn lemma_run_keeps<K>(
    states: Seq<Set<K>>,
    keys: Seq<K>,
    answers: Seq<bool>,
    from: int,
    to: int,
    key: K,
)
    requires
        set_run(states, keys, answers),
        0 < from <= to <= keys.len(),
        keys[from - 1] == key || states[from - 1].contains(key),
    ensures
        states[to].contains(key),
    decreases to - from,
{
    assert(answers[from - 1] == !states[from - 1].contains(keys[from - 1]));
    assert(states[from].contains(key));
    if from < to {
        lemma_run_keeps(states, keys, answers, from + 1, to, key);
    }
}

/// The number of answers in `answers` that are `true`.
pub open spec fn true_count(answers: Seq<bool>) -> nat
    decreases answers.len(),
{
    if answers.len() == 0 {
        0
    } else if answers[0] {
        true_count(answers.drop_first()) + 1
    } else {
        true_count(answers.drop_first())
    }
}

/// The answers of a run hold `true` as often as [`fresh_count`] says.
pub proof fn lemma_run_gives_fresh_count<K>(
    states: Seq<Set<K>>,
    keys: Seq<K>,
    answers: Seq<bool>,
)
    requires
        set_run(states, keys, answers),
    ensures
        true_count(answers) == fresh_count(states[0], keys),
    decreases keys.len(),
{
    if keys.len() > 0 {
        let later = states.drop_first();
        let rest = keys.drop_first();
        let tail = answers.drop_first();
        assert forall|i: int| 0 <= i < rest.len() implies {
            &&& #[trigger] tail[i] == !later[i].contains(rest[i])
            &&& later[i + 1] == later[i].insert(rest[i])
        } by {
            assert(answers[i + 1] == !states[i + 1].contains(keys[i + 1]));
        }
        lemma_run_gives_fresh_count(later, rest, tail);
        assert(answers[0] == !states[0].contains(keys[0]));
        assert(later[0] == states[0].insert(keys[0]));
    }
}

/// Two sequences with the same members, each as often in one as in the
/// other, hold the same set of members.
proof fn lemma_same_multiset_same_set<K>(first: Seq<K>, second: Seq<K>)
    requires
        first.to_multiset() == second.to_multiset(),
    ensures
        first.to_set() == second.to_set(),
{
    assert forall|k: K| first.contains(k) == second.contains(k) by {
        to_multiset_contains(first, k);
        to_multiset_contains(second, k);
    }
    assert(first.to_set() =~= second.to_set());
}

/// A set-backed filter finds as many keys new in a stream as in any
/// reordering of it.
pub proof fn lemma_fresh_count_ignores_order<K>(seen: Set<K>, first: Seq<K>, second: Seq<K>)
    requires
        first.to_multiset() == second.to_multiset(),
    ensures
        fresh_count(seen, first) == fresh_count(seen, second),
{
    lemma_same_multiset_same_set(first, second);
    lemma_fresh_count_is_unseen_len(seen, first);
    lemma_fresh_count_is_unseen_len(seen, second);
}

/// Two runs that start from the same set and are shown the same keys, each
/// as often in one as in the other, give `true` equally often, whatever the
/// order of the keys in each.
pub proof fn lemma_runs_agree_in_any_order<K>(
    states: Seq<Set<K>>,
    keys: Seq<K>,
    answers: Seq<bool>,
    other_states: Seq<Set<K>>,
    other_keys: Seq<K>,
    other_answers: Seq<bool>,
)
    requires
        set_run(states, keys, answers),
        set_run(other_states, other_keys, other_answers),
        states[0] == other_states[0],
        keys.to_multiset() == other_keys.to_multiset(),
    ensures
        true_count(answers) == true_count(other_answers),
{
    lemma_run_gives_fresh_count(states, keys, answers);
    lemma_run_gives_fresh_count(other_states, other_keys, other_answers);
    lemma_fresh_count_ignores_order(states[0], keys, other_keys);
}

/// The XXH3 digests of `records`, in the order of the records.
pub open spec fn digests(records: Seq<Seq<u8>>) -> Seq<u64> {
    records.map_values(|record: Seq<u8>| xxh3_64_of(record))
}

/// A filter that compares digests finds as many records new in a stream as
/// in any reordering of it.
pub proof fn lemma_digest_count_ignores_order(
    seen: Set<u64>,
    first: Seq<Seq<u8>>,
    second: Seq<Seq<u8>>,
)
    requires
        first.to_multiset() == second.to_multiset(),
    ensures
        fresh_count(seen, digests(first)) == fresh_count(seen, digests(second)),
{
    lemma_same_multiset_same_set(first, second);
    let digest = |record: Seq<u8>| xxh3_64_of(record);
    first.lemma_to_set_map_commutes(digest);
    second.lemma_to_set_map_commutes(digest);
    lemma_fresh_count_is_unseen_len(seen, digests(first));
    lemma_fresh_count_is_unseen_len(seen, digests(second));
}

/// Whether a filter that is shown `records` from first to last may go
/// through the filters `states` and give the answers `answers`, each call of
/// `detect` keeping what [`detection`] says.
pub open spec fn run<F: Filter>(states: Seq<F>, records: Seq<Seq<u8>>, answers: Seq<bool>) -> bool {
    &&& states.len() == records.len() + 1
    &&& answers.len() == records.len()
    &&& forall|i: int|
        0 <= i < records.len() ==> detection(
            #[trigger] states[i],
            records[i],
            answers[i],
            states[i + 1],
        )
}

/// Two simple filters that know the same records and are shown the same
/// records, each as often to one as to the other, find equally many of them
/// new, whatever the order in which each is shown them.
pub proof fn lemma_simple_filter_ignores_order(
    states: Seq<SimpleFilter>,
    records: Seq<Seq<u8>>,
    answers: Seq<bool>,
    other_states: Seq<SimpleFilter>,
    other_records: Seq<Seq<u8>>,
    other_answers: Seq<bool>,
)
    requires
        run(states, records, answers),
        run(other_states, other_records, other_answers),
        states[0]@ == other_states[0]@,
        records.to_multiset() == other_records.to_multiset(),
    ensures
        true_count(answers) == true_count(other_answers),
{
    let sets = states.map_values(|filter: SimpleFilter| filter@);
    let other_sets = other_states.map_values(|filter: SimpleFilter| filter@);
    assert forall|i: int| 0 <= i < records.len() implies {
        &&& #[trigger] answers[i] == !sets[i].contains(records[i])
        &&& sets[i + 1] == sets[i].insert(records[i])
    } by {
        assert(detection(states[i], records[i], answers[i], states[i + 1]));
    }
    assert forall|i: int| 0 <= i < other_records.len() implies {
        &&& #[trigger] other_answers[i] == !other_sets[i].contains(other_records[i])
        &&& other_sets[i + 1] == other_sets[i].insert(other_records[i])
    } by {
        assert(detection(other_states[i], other_records[i], other_answers[i], other_states[i + 1]));
    }
    lemma_runs_agree_in_any_order(sets, records, answers, other_sets, other_records, other_answers);
}

/// Two quick filters that know the same digests and are shown the same
/// records, each as often to one as to the other, find equally many of them
/// new, whatever the order in which each is shown them.
pub proof fn lemma_quick_filter_ignores_order(
    states: Seq<QuickFilter>,
    records: Seq<Seq<u8>>,
    answers: Seq<bool>,
    other_states: Seq<QuickFilter>,
    other_records: Seq<Seq<u8>>,
    other_answers: Seq<bool>,
)
    requires
        run(states, records, answers),
        run(other_states, other_records, other_answers),
        states[0]@ == other_states[0]@,
        records.to_multiset() == other_records.to_multiset(),
    ensures
        true_count(answers) == true_count(other_answers),
{
    let sets = states.map_values(|filter: QuickFilter| filter@);
    let other_sets = other_states.map_values(|filter: QuickFilter| filter@);
    let keys = digests(records);
    let other_keys = digests(other_records);
    assert forall|i: int| 0 <= i < keys.len() implies {
        &&& #[trigger] answers[i] == !sets[i].contains(keys[i])
        &&& sets[i + 1] == sets[i].insert(keys[i])
    } by {
        assert(detection(states[i], records[i], answers[i], states[i + 1]));
    }
    assert forall|i: int| 0 <= i < other_keys.len() implies {
        &&& #[trigger] other_answers[i] == !other_sets[i].contains(other_keys[i])
        &&& other_sets[i + 1] == other_sets[i].insert(other_keys[i])
    } by {
        assert(detection(other_states[i], other_records[i], other_answers[i], other_states[i + 1]));
    }
    lemma_run_gives_fresh_count(sets, keys, answers);
    lemma_run_gives_fresh_count(other_sets, other_keys, other_answers);
    lemma_digest_count_ignores_order(sets[0], records, other_records);
}

/// A simple filter never forgets: in a run, a record that was shown once is
/// a repeat whenever it is shown again.
pub proof fn lemma_simple_filter_never_forgets(
    states: Seq<SimpleFilter>,
    records: Seq<Seq<u8>>,
    answers: Seq<bool>,
    earlier: int,
    later: int,
)
    requires
        run(states, records, answers),
        0 <= earlier < later < records.len(),
        records[earlier] == records[later],
    ensures
        !answers[later],
{
    let sets = states.map_values(|filter: SimpleFilter| filter@);
    assert forall|i: int| 0 <= i < records.len() implies {
        &&& #[trigger] answers[i] == !sets[i].contains(records[i])
        &&& sets[i + 1] == sets[i].insert(records[i])
    } by {
        assert(detection(states[i], records[i], answers[i], states[i + 1]));
    }
    lemma_run_never_forgets(sets, records, answers, earlier, later);
}

/// A quick filter never forgets: in a run, a record that was shown once is a
/// repeat whenever it is shown again.
pub proof fn lemma_quick_filter_never_forgets(
    states: Seq<QuickFilter>,
    records: Seq<Seq<u8>>,
    answers: Seq<bool>,
    earlier: int,
    later: int,
)
    requires
        run(states, records, answers),
        0 <= earlier < later < records.len(),
        records[earlier] == records[later],
    ensures
        !answers[later],
{
    let sets = states.map_values(|filter: QuickFilter| filter@);
    let keys = digests(records);
    assert forall|i: int| 0 <= i < keys.len() implies {
        &&& #[trigger] answers[i] == !sets[i].contains(keys[i])
        &&& sets[i + 1] == sets[i].insert(keys[i])
    } by {
        assert(detection(states[i], records[i], answers[i], states[i + 1]));
    }
    lemma_run_never_forgets(sets, keys, answers, earlier, later);
}

/// A compact filter never forgets: in a run, a record that was shown once is
/// a repeat whenever it is shown again.
pub proof fn lemma_compact_filter_never_forgets(
    states: Seq<CompactFilter>,
    records: Seq<Seq<u8>>,
    answers: Seq<bool>,
    earlier: int,
    later: int,
)
    requires
        run(states, records, answers),
        0 <= earlier < later < records.len(),
        records[earlier] == records[later],
    ensures
        !answers[later],
{
    assert(detection(states[earlier], records[earlier], answers[earlier], states[earlier + 1]));
    lemma_compact_filter_keeps(states, records, answers, earlier + 1, later, records[earlier]);
    assert(detection(states[later], records[later], answers[later], states[later + 1]));
}

/// In a run of a compact filter, what the filter recalls at one point it
/// recalls at every later one.
proof fn lemma_compact_filter_keeps(
    states: Seq<CompactFilter>,
    records: Seq<Seq<u8>>,
    answers: Seq<bool>,
    from: int,
    to: int,
    record: Seq<u8>,
)
    requires
        run(states, records, answers),
        0 <= from <= to <= records.len(),
        states[from].recalls(record),
    ensures
        states[to].recalls(record),
    decreases to - from,
{
    if from < to {
        assert(detection(states[from], records[from], answers[from], states[from + 1]));
        lemma_compact_filter_keeps(states, records, answers, from + 1, to, record);
    }
}

/// Whether a [`CompactFilter`] that is shown records with the digests
/// `digests`, from first to last, may go through the filters `states` and
/// find every one of the records new.
pub open spec fn fresh_run(states: Seq<CompactFilter>, digests: Seq<u64>) -> bool {
    &&& states.len() == digests.len() + 1
    &&& forall|i: int|
        0 <= i < digests.len() ==> {
            &&& (#[trigger] states[i]).admits(digests[i])
            &&& states[i].takes(digests[i], &states[i + 1])
        }
}

/// Whether a [`CompactFilter`] is as it is made: without a layer, rated for
/// nothing, and with no record counted.
pub open spec fn unused(filter: CompactFilter) -> bool {
    &&& filter.layers().len() == 0
    &&& filter.admitted() == 0
    &&& filter.rated() == 0
}

/// The number of records that the newest layer of `filter` holds: those
/// counted beyond what the layers before it are rated for. The newest of `n`
/// layers is itself rated for [`ESTIMATED_INSERTIONS`] times
/// [`GROWTH_FACTOR`] to the power of `n - 1`.
pub open spec fn newest_layer_holds(filter: CompactFilter) -> int {
    let newest = ESTIMATED_INSERTIONS * pow(
        GROWTH_FACTOR as int,
        (filter.layers().len() - 1) as nat,
    );
    filter.admitted() - (filter.rated() - newest)
}

/// A compact filter that is shown one new record more than its first layer
/// is rated for ends up with exactly two layers.
///
/// The first record makes the first layer, rated for
/// [`ESTIMATED_INSERTIONS`], and that layer takes every record up to its
/// rating. The record after those makes the second layer, rated for
/// [`GROWTH_FACTOR`] times as many, and goes into it; the first layer is then
/// left as it was. No other layer is made. So the first layer ends up
/// holding as many records as it is rated for, and the second one record.
pub proof fn lemma_one_record_too_many_appends_a_layer(
    states: Seq<CompactFilter>,
    digests: Seq<u64>,
)
    requires
        fresh_run(states, digests),
        unused(states[0]),
        digests.len() == ESTIMATED_INSERTIONS + 1,
    ensures
        forall|i: int|
            1 <= i <= ESTIMATED_INSERTIONS ==> {
                &&& (#[trigger] states[i]).layers().len() == 1
                &&& states[i].rated() == ESTIMATED_INSERTIONS
                &&& states[i].admitted() == i
            },
        states.last().layers().len() == 2,
        states.last().layers()[0] == states[ESTIMATED_INSERTIONS as int].layers()[0],
        states.last().layers()[1].contains(digests.last()),
        states.last().rated() == ESTIMATED_INSERTIONS + ESTIMATED_INSERTIONS * GROWTH_FACTOR,
        states.last().admitted() == ESTIMATED_INSERTIONS + 1,
        newest_layer_holds(states[ESTIMATED_INSERTIONS as int]) == ESTIMATED_INSERTIONS,
        newest_layer_holds(states.last()) == 1,
{
    let full = ESTIMATED_INSERTIONS as int;
    lemma_pow0(GROWTH_FACTOR as int);
    lemma_first_layer_lasts(states, digests, full);
    assert(states[full].admits(digests[full]));
    assert(states[full].takes(digests[full], &states[full + 1]));
    lemma_pow1(GROWTH_FACTOR as int);
    let after = states[full + 1].layers();
    assert(after.drop_last()[0] == after[0]);
}

/// As long as the records shown do not outnumber what the first layer is
/// rated for, the filter has that layer alone and has counted every record.
proof fn lemma_first_layer_lasts(states: Seq<CompactFilter>, digests: Seq<u64>, upto: int)
    requires
        fresh_run(states, digests),
        unused(states[0]),
        1 <= upto <= ESTIMATED_INSERTIONS,
        upto <= digests.len(),
    ensures
        forall|i: int|
            1 <= i <= upto ==> {
                &&& (#[trigger] states[i]).layers().len() == 1
                &&& states[i].rated() == ESTIMATED_INSERTIONS
                &&& states[i].admitted() == i
            },
    decreases upto,
{
    if upto == 1 {
        assert(states[0].admits(digests[0]));
        assert(states[0].takes(digests[0], &states[1]));
        lemma_pow0(GROWTH_FACTOR as int);
    } else {
        lemma_first_layer_lasts(states, digests, upto - 1);
        assert(states[upto - 1].admits(digests[upto - 1]));
        assert(states[upto - 1].takes(digests[upto - 1], &states[upto]));
    }
}

} // verus!

use growable_bloom_filter::{GrowableBloom, GrowableBloomBuilder};
use runiq::filters::compact::{ERROR_ODDS, ESTIMATED_INSERTIONS, GROWTH_FACTOR, TIGHTENING_DIVISOR};
use runiq::{AnyFilter, CompactFilter, Filter, Filters, QuickFilter, SimpleFilter, SortedFilter};

fn standard_bloom() -> GrowableBloom {
    GrowableBloomBuilder::new()
        .estimated_insertions(ESTIMATED_INSERTIONS)
        .desired_error_ratio(1.0 / f64::from(ERROR_ODDS))
        .growth_factor(GROWTH_FACTOR)
        .tightening_ratio(1.0 / f64::from(TIGHTENING_DIVISOR))
        .build()
}

#[test]
fn filters_naive_filter_detection() {
    let mut filter = SimpleFilter::default();

    let ins1 = filter.detect(b"input1");
    let ins2 = filter.detect(b"input1");

    assert!(ins1);
    assert!(!ins2);
}

#[test]
fn filters_digest_filter_detection() {
    let mut filter = QuickFilter::default();

    let ins1 = filter.detect(b"input1");
    let ins2 = filter.detect(b"input1");

    assert!(ins1);
    assert!(!ins2);
}

#[test]
fn sorted_filter_detection() {
    let mut filter = SortedFilter::default();

    let ins1 = filter.detect(b"input1");
    let ins2 = filter.detect(b"input1");
    let ins3 = filter.detect(b"input2");
    let ins4 = filter.detect(b"input1");

    assert!(ins1);
    assert!(!ins2);
    assert!(ins3);
    assert!(ins4);
}

#[test]
fn bloom_filter_detection() {
    let mut filter = CompactFilter::new(standard_bloom());

    let ins1 = filter.detect(b"input1");
    let ins2 = filter.detect(b"input1");

    assert!(ins1);
    assert!(!ins2);
}

#[test]
fn standard_parameters_are_the_documented_ones() {
    assert_eq!(ESTIMATED_INSERTIONS, 1_000_000);
    assert_eq!(ERROR_ODDS, 100_000_000);
    assert_eq!(GROWTH_FACTOR, 2);
    assert_eq!(TIGHTENING_DIVISOR, 2);
    assert_eq!(1.0 / f64::from(ERROR_ODDS), 1e-8);
    assert_eq!(1.0 / f64::from(TIGHTENING_DIVISOR), 0.5);
}

#[test]
fn simple_filter_tells_records_apart_byte_by_byte() {
    let mut filter = SimpleFilter::new();

    assert!(filter.detect(b"abc"));
    assert!(filter.detect(b"abd"));
    assert!(filter.detect(b"ab"));
    assert!(filter.detect(b"abcd"));
    assert!(filter.detect(b""));
    assert!(filter.detect(b"\0"));

    assert!(!filter.detect(b"abc"));
    assert!(!filter.detect(b"abd"));
    assert!(!filter.detect(b"ab"));
    assert!(!filter.detect(b"abcd"));
    assert!(!filter.detect(b""));
    assert!(!filter.detect(b"\0"));
}

#[test]
fn simple_filter_keeps_every_record_of_a_long_stream() {
    let mut filter = SimpleFilter::new();
    let mut fresh = 0;
    for round in 0..3 {
        for n in 0..5000u32 {
            let record = format!("record-{n}");
            if filter.detect(record.as_bytes()) {
                assert_eq!(round, 0);
                fresh += 1;
            }
        }
    }
    assert_eq!(fresh, 5000);
}

#[test]
fn simple_filter_handles_long_records() {
    let mut filter = SimpleFilter::new();
    let long = vec![7u8; 4096];
    let mut other = long.clone();
    other[4095] = 8;

    assert!(filter.detect(&long));
    assert!(filter.detect(&other));
    assert!(!filter.detect(&long));
    assert!(!filter.detect(&other));
}

#[test]
fn quick_filter_remembers_every_record() {
    let mut filter = QuickFilter::new();
    for n in 0..5000u32 {
        assert!(filter.detect(format!("record-{n}").as_bytes()));
    }
    for n in 0..5000u32 {
        assert!(!filter.detect(format!("record-{n}").as_bytes()));
    }
}

#[test]
fn sorted_filter_finds_the_empty_record_new() {
    let mut filter = SortedFilter::new();

    assert!(filter.detect(b""));
    assert!(!filter.detect(b""));
    assert!(filter.detect(b"a"));
    assert!(filter.detect(b""));
}

#[test]
fn sorted_filter_forgets_all_but_the_last_record() {
    let mut filter = SortedFilter::new();

    assert!(filter.detect(b"a"));
    assert!(!filter.detect(b"a"));
    assert!(filter.detect(b"b"));
    assert!(filter.detect(b"a"));
}

#[test]
fn any_filter_follows_the_strategy_it_was_built_for() {
    for kind in [Filters::Quick, Filters::Simple, Filters::Compact] {
        let mut filter = AnyFilter::new(kind, standard_bloom());
        assert!(filter.detect(b"a"));
        assert!(filter.detect(b"b"));
        assert!(!filter.detect(b"a"));
    }

    let mut filter = AnyFilter::new(Filters::Sorted, standard_bloom());
    assert!(filter.detect(b"a"));
    assert!(filter.detect(b"b"));
    assert!(filter.detect(b"a"));
    assert!(!filter.detect(b"a"));
}

#[test]
fn any_filter_is_of_the_kind_asked_for() {
    assert!(matches!(AnyFilter::new(Filters::Quick, standard_bloom()), AnyFilter::Quick(_)));
    assert!(matches!(AnyFilter::new(Filters::Simple, standard_bloom()), AnyFilter::Simple(_)));
    assert!(matches!(AnyFilter::new(Filters::Sorted, standard_bloom()), AnyFilter::Sorted(_)));
    assert!(matches!(AnyFilter::new(Filters::Compact, standard_bloom()), AnyFilter::Compact(_)));
}

#[test]
fn quick_filter_knows_a_record_by_its_xxh3_digest() {
    let mut filter = QuickFilter::new();

    assert!(filter.detect(b"input1"));
    assert!(!filter.detect_digest(xxhash_rust::xxh3::xxh3_64(b"input1")));
    assert!(filter.detect_digest(xxhash_rust::xxh3::xxh3_64(b"input2")));
    assert!(!filter.detect(b"input2"));
}

#[test]
fn quick_filter_tells_digests_apart() {
    let mut filter = QuickFilter::new();

    assert!(filter.detect_digest(0));
    assert!(filter.detect_digest(1));
    assert!(filter.detect_digest(u64::MAX));
    assert!(!filter.detect_digest(0));
    assert!(!filter.detect_digest(1));
    assert!(!filter.detect_digest(u64::MAX));
    assert!(filter.detect_digest(2));
}

#[test]
fn copies_of_filters_go_their_own_way() {
    let mut quick = QuickFilter::new();
    let mut simple = SimpleFilter::new();
    let mut sorted = SortedFilter::new();
    assert!(quick.detect(b"a"));
    assert!(simple.detect(b"a"));
    assert!(sorted.detect(b"a"));

    let mut quick_copy = quick.clone();
    let mut simple_copy = simple.clone();
    let mut sorted_copy = sorted.clone();
    assert!(!quick_copy.detect(b"a"));
    assert!(!simple_copy.detect(b"a"));
    assert!(!sorted_copy.detect(b"a"));
    assert!(quick_copy.detect(b"b"));
    assert!(simple_copy.detect(b"b"));
    assert!(sorted_copy.detect(b"b"));

    assert!(quick.detect(b"b"));
    assert!(simple.detect(b"b"));
    assert!(sorted.detect(b"b"));
}

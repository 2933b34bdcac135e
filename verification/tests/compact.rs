use growable_bloom_filter::{GrowableBloom, GrowableBloomBuilder};
use runiq::filters::compact::{ERROR_ODDS, ESTIMATED_INSERTIONS, GROWTH_FACTOR, TIGHTENING_DIVISOR};
use runiq::{CompactFilter, Filter};

fn standard_bloom() -> GrowableBloom {
    GrowableBloomBuilder::new()
        .estimated_insertions(ESTIMATED_INSERTIONS)
        .desired_error_ratio(1.0 / f64::from(ERROR_ODDS))
        .growth_factor(GROWTH_FACTOR)
        .tightening_ratio(1.0 / f64::from(TIGHTENING_DIVISOR))
        .build()
}

#[test]
fn compact_filter_starts_empty_whatever_the_bloom_held() {
    let mut bloom = standard_bloom();
    bloom.insert(xxhash_rust::xxh3::xxh3_64(b"input1"));

    let mut filter = CompactFilter::new(bloom);

    assert_eq!(filter.len(), 0);
    assert!(filter.detect(b"input1"));
    assert!(!filter.detect(b"input1"));
}

#[test]
fn compact_filter_counts_the_records_it_took_for_new() {
    let mut filter = CompactFilter::new(standard_bloom());

    assert_eq!(filter.len(), 0);
    assert!(filter.detect(b"a"));
    assert!(filter.detect(b"b"));
    assert!(!filter.detect(b"a"));
    assert!(filter.detect(b"c"));
    assert_eq!(filter.len(), 3);
}

#[test]
fn compact_filter_appends_one_layer_when_the_first_is_full() {
    let mut filter = CompactFilter::new(standard_bloom());
    assert_eq!(filter.capacity(), 0);

    for n in 0..ESTIMATED_INSERTIONS as u64 {
        assert!(filter.detect(&n.to_le_bytes()));
        assert_eq!(filter.capacity(), ESTIMATED_INSERTIONS);
    }
    assert_eq!(filter.len(), ESTIMATED_INSERTIONS);

    let last = ESTIMATED_INSERTIONS as u64;
    assert!(filter.detect(&last.to_le_bytes()));
    assert_eq!(filter.len(), ESTIMATED_INSERTIONS + 1);
    assert_eq!(
        filter.capacity(),
        ESTIMATED_INSERTIONS + ESTIMATED_INSERTIONS * GROWTH_FACTOR
    );

    for n in (0..=last).step_by(1000) {
        assert!(!filter.detect(&n.to_le_bytes()));
    }
    assert_eq!(filter.len(), ESTIMATED_INSERTIONS + 1);
    assert_eq!(
        filter.capacity(),
        ESTIMATED_INSERTIONS + ESTIMATED_INSERTIONS * GROWTH_FACTOR
    );
}

#[test]
fn compact_filter_is_far_from_full() {
    let mut filter = CompactFilter::new(standard_bloom());
    assert!(!filter.is_full());

    for n in 0..1000u64 {
        filter.detect(&n.to_le_bytes());
    }
    assert!(!filter.is_full());
}

#[test]
fn compact_filter_takes_no_new_record_for_a_repeat_in_a_large_sample() {
    let mut filter = CompactFilter::new(standard_bloom());
    let mut state = 0x9E37_79B9_7F4A_7C15u64;
    let mut false_repeats = 0u32;
    let sample = 300_000u32;

    for n in 0..sample {
        state ^= state << 13;
        state ^= state >> 7;
        state ^= state << 17;
        let record = format!("{n}:{state:016x}");
        if !filter.detect(record.as_bytes()) {
            false_repeats += 1;
        }
    }

    let rate = f64::from(false_repeats) / f64::from(sample);
    assert!(rate <= 1e-5, "false repeats: {false_repeats} of {sample}");
}

#[test]
fn compact_filter_knows_a_record_by_its_xxh3_digest() {
    let mut filter = CompactFilter::new(standard_bloom());

    assert!(filter.detect(b"input1"));
    assert!(!filter.detect_digest(xxhash_rust::xxh3::xxh3_64(b"input1")));
    assert!(filter.detect_digest(xxhash_rust::xxh3::xxh3_64(b"input2")));
    assert!(!filter.detect(b"input2"));
    assert_eq!(filter.len(), 2);
}

use growable_bloom_filter::{GrowableBloom, GrowableBloomBuilder};
use runiq::filters::compact::{ERROR_ODDS, ESTIMATED_INSERTIONS, GROWTH_FACTOR, TIGHTENING_DIVISOR};
use runiq::{AnyFilter, Filter, Filters, QuickFilter, SimpleFilter};

fn standard_bloom() -> GrowableBloom {
    GrowableBloomBuilder::new()
        .estimated_insertions(ESTIMATED_INSERTIONS)
        .desired_error_ratio(1.0 / f64::from(ERROR_ODDS))
        .growth_factor(GROWTH_FACTOR)
        .tightening_ratio(1.0 / f64::from(TIGHTENING_DIVISOR))
        .build()
}

fn count_fresh<F: Filter>(filter: &mut F, records: &[&str]) -> usize {
    records.iter().filter(|record| filter.detect(record.as_bytes())).count()
}

#[test]
fn first_record_is_fresh_for_every_strategy() {
    let long = "x".repeat(1000);
    for kind in [Filters::Quick, Filters::Simple, Filters::Sorted, Filters::Compact] {
        for record in ["", "a", "input1", "\n", long.as_str()] {
            let mut filter = AnyFilter::new(kind, standard_bloom());
            assert!(filter.detect(record.as_bytes()));
        }
    }
}

#[test]
fn immediate_repeat_is_not_fresh_for_any_strategy() {
    let long = "x".repeat(1000);
    for kind in [Filters::Quick, Filters::Simple, Filters::Sorted, Filters::Compact] {
        let mut filter = AnyFilter::new(kind, standard_bloom());
        for record in ["", "a", "input1", "a", long.as_str()] {
            filter.detect(record.as_bytes());
            assert!(!filter.detect(record.as_bytes()));
            assert!(!filter.detect(record.as_bytes()));
        }
    }
}

#[test]
fn simple_filter_counts_the_same_in_any_order() {
    let forwards = ["a", "b", "c", "a", "d", "b", "a"];
    let backwards = ["a", "b", "d", "a", "c", "b", "a"];
    let shuffled = ["b", "a", "a", "d", "a", "c", "b"];

    assert_eq!(count_fresh(&mut SimpleFilter::new(), &forwards), 4);
    assert_eq!(count_fresh(&mut SimpleFilter::new(), &backwards), 4);
    assert_eq!(count_fresh(&mut SimpleFilter::new(), &shuffled), 4);
}

#[test]
fn quick_filter_counts_the_same_in_any_order() {
    let forwards = ["a", "b", "c", "a", "d", "b", "a"];
    let backwards = ["a", "b", "d", "a", "c", "b", "a"];
    let shuffled = ["b", "a", "a", "d", "a", "c", "b"];

    assert_eq!(count_fresh(&mut QuickFilter::new(), &forwards), 4);
    assert_eq!(count_fresh(&mut QuickFilter::new(), &backwards), 4);
    assert_eq!(count_fresh(&mut QuickFilter::new(), &shuffled), 4);
}

#[test]
fn distinct_records_are_all_fresh_in_any_order() {
    let records: Vec<String> = (0..1000).map(|n| format!("record {n}")).collect();
    let forwards: Vec<&str> = records.iter().map(String::as_str).collect();
    let backwards: Vec<&str> = records.iter().rev().map(String::as_str).collect();

    assert_eq!(count_fresh(&mut SimpleFilter::new(), &forwards), 1000);
    assert_eq!(count_fresh(&mut SimpleFilter::new(), &backwards), 1000);
    assert_eq!(count_fresh(&mut QuickFilter::new(), &forwards), 1000);
    assert_eq!(count_fresh(&mut QuickFilter::new(), &backwards), 1000);
}

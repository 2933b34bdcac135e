use runiq::statistics::Stats;

#[test]
fn default_creation() {
    let stats = Stats::new();

    assert_eq!(stats.total(), 0);
    assert_eq!(stats.uniques(), 0);
    assert_eq!(stats.duplicates(), 0);
}

#[test]
fn addition_of_uniques() {
    let mut stats = Stats::new();

    stats.add_unique();
    stats.add_unique();
    stats.add_unique();

    assert_eq!(stats.total(), 3);
    assert_eq!(stats.uniques(), 3);
    assert_eq!(stats.duplicates(), 0);
}

#[test]
fn addition_of_duplicates() {
    let mut stats = Stats::new();

    stats.add_duplicate();
    stats.add_duplicate();
    stats.add_duplicate();

    assert_eq!(stats.total(), 3);
    assert_eq!(stats.uniques(), 0);
    assert_eq!(stats.duplicates(), 3);
}

#[test]
fn addition_of_both() {
    let mut stats = Stats::new();

    stats.add_duplicate();
    stats.add_duplicate();
    stats.add_duplicate();
    stats.add_unique();
    stats.add_unique();
    stats.add_unique();

    assert_eq!(stats.total(), 6);
    assert_eq!(stats.uniques(), 3);
    assert_eq!(stats.duplicates(), 3);

    let rate = ((stats.uniques() as f64 / stats.total() as f64) * 100.0) as f32;
    assert_eq!(rate as u16, 50);
    assert_eq!(100.0 - rate, 50.0);
}

#[test]
fn total_is_uniques_and_duplicates_in_any_order() {
    let mut stats = Stats::new();
    let mut uniques = 0;
    let mut duplicates = 0;

    for n in 0..100u64 {
        if n % 3 == 0 {
            stats.add_duplicate();
            duplicates += 1;
        } else {
            stats.add_unique();
            uniques += 1;
        }
        assert_eq!(stats.uniques(), uniques);
        assert_eq!(stats.duplicates(), duplicates);
        assert_eq!(stats.total(), uniques + duplicates);
    }

    assert_eq!(stats.uniques(), 66);
    assert_eq!(stats.duplicates(), 34);
    assert_eq!(stats.total(), 100);
}

#[test]
fn addition_of_sizes() {
    let mut stats = Stats::new();
    assert_eq!(stats.size(), 0);

    stats.add_size(7);
    stats.add_size(0);
    stats.add_size(35);

    assert_eq!(stats.size(), 42);
    assert_eq!(stats.total(), 0);
    assert_eq!(stats.uniques(), 0);
}

#[test]
fn default_is_new() {
    let stats = Stats::default();

    assert_eq!(stats.total(), 0);
    assert_eq!(stats.uniques(), 0);
    assert_eq!(stats.duplicates(), 0);
    assert_eq!(stats.size(), 0);
}

#[test]
fn counters_reach_the_largest_count() {
    let mut stats = Stats::new();

    stats.add_size(usize::MAX);
    if (usize::MAX as u128) < (u64::MAX as u128) {
        assert_eq!(stats.size(), usize::MAX as u64);
    } else {
        assert_eq!(stats.size(), u64::MAX);
    }
}

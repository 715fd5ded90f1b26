use parsql::utils::SqlParamCounter;

#[test]
fn test_counter_starts_at_one() {
    let counter = SqlParamCounter::new();
    assert_eq!(counter.current(), 1);
}

#[test]
fn test_counter_increment() {
    let mut counter = SqlParamCounter::new();
    assert_eq!(counter.next(), 1);
    assert_eq!(counter.current(), 2);
    assert_eq!(counter.next(), 2);
    assert_eq!(counter.current(), 3);
}

#[test]
fn test_counter_count() {
    let mut counter = SqlParamCounter::new();
    assert_eq!(counter.count(), 0);

    counter.next();
    assert_eq!(counter.count(), 1);

    counter.next();
    counter.next();
    assert_eq!(counter.count(), 3);
}

#[test]
fn counter_count_equals_numbers_handed_out() {
    let mut counter = SqlParamCounter::new();
    for k in 1..=10usize {
        assert_eq!(counter.next(), k);
        assert_eq!(counter.count(), k);
        assert_eq!(counter.current(), k + 1);
    }
}

use rust_study::interior_mutability::{Counter, DataCache};

#[test]
fn counter_counts_increments() {
    let mut c = Counter::new();
    assert_eq!(c.value(), 0);
    c.increment();
    c.increment();
    assert_eq!(c.value(), 2);
}

#[test]
fn cache_doubles_and_reuses() {
    let mut cache = DataCache::new(vec![1, 2, 3]);
    assert_eq!(cache.get_computed(), vec![2, 4, 6]);
    assert_eq!(cache.get_computed(), vec![2, 4, 6]);
}

#[test]
fn cache_of_nothing_is_empty() {
    let mut cache = DataCache::new(vec![]);
    assert_eq!(cache.get_computed(), Vec::<i32>::new());
    assert_eq!(cache.get_computed(), Vec::<i32>::new());
}

#[test]
fn cache_handles_negative_and_extreme_values() {
    let mut cache = DataCache::new(vec![-5, 0, i32::MAX / 2, i32::MIN / 2]);
    assert_eq!(cache.get_computed(), vec![-10, 0, i32::MAX - 1, i32::MIN]);
}

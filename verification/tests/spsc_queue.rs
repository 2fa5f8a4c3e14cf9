use rust_study::spsc_queue::{SpscQueue, EMPTY};

#[test]
fn capacity_is_one_less_than_slots() {
    let q = SpscQueue::<8>::new();
    assert_eq!(q.capacity(), 7);
    let q2 = SpscQueue::<2>::new();
    assert_eq!(q2.capacity(), 1);
}

#[test]
fn new_queue_is_empty() {
    let mut q = SpscQueue::<4>::new();
    assert!(q.is_empty());
    assert_eq!(q.pop(), None);
}

#[test]
fn full_queue_hands_the_value_back() {
    let mut q = SpscQueue::<4>::new();
    assert_eq!(q.push(1), Ok(()));
    assert_eq!(q.push(2), Ok(()));
    assert_eq!(q.push(3), Ok(()));
    assert_eq!(q.push(4), Err(4));
    assert_eq!(q.pop(), Some(1));
    assert_eq!(q.pop(), Some(2));
    assert_eq!(q.pop(), Some(3));
    assert_eq!(q.pop(), None);
}

#[test]
fn push_then_pop_gives_the_value_back() {
    let mut q = SpscQueue::<2>::new();
    assert_eq!(q.push(-1), Ok(()));
    assert!(!q.is_empty());
    assert_eq!(q.pop(), Some(-1));
    assert!(q.is_empty());
}

#[test]
fn first_in_first_out_across_wraparound() {
    let mut q = SpscQueue::<8>::new();
    let mut expected = 0;
    for value in 0..20 {
        if q.push(value).is_err() {
            while let Some(v) = q.pop() {
                assert_eq!(v, expected);
                expected += 1;
            }
            assert_eq!(q.push(value), Ok(()));
        }
    }
    while let Some(v) = q.pop() {
        assert_eq!(v, expected);
        expected += 1;
    }
    assert_eq!(expected, 20);
    assert!(q.is_empty());
}

#[test]
fn interleaved_push_and_pop_keep_order() {
    let mut q = SpscQueue::<3>::new();
    assert_eq!(q.push(10), Ok(()));
    assert_eq!(q.push(20), Ok(()));
    assert_eq!(q.pop(), Some(10));
    assert_eq!(q.push(30), Ok(()));
    assert_eq!(q.push(40), Err(40));
    assert_eq!(q.pop(), Some(20));
    assert_eq!(q.pop(), Some(30));
    assert_eq!(q.pop(), None);
}

#[test]
fn extreme_values_other_than_the_marker_are_queued() {
    let mut q = SpscQueue::<3>::new();
    assert_eq!(EMPTY, i32::MIN);
    assert_eq!(q.push(i32::MIN + 1), Ok(()));
    assert_eq!(q.push(i32::MAX), Ok(()));
    assert_eq!(q.pop(), Some(i32::MIN + 1));
    assert_eq!(q.pop(), Some(i32::MAX));
}

#[test]
fn pushed_values_are_popped_ones_followed_by_held_ones() {
    let mut q = SpscQueue::<4>::new();
    let mut accepted = Vec::new();
    let mut taken = Vec::new();
    for step in 0..30 {
        if step % 3 == 2 {
            if let Some(v) = q.pop() {
                taken.push(v);
            }
        } else if q.push(step).is_ok() {
            accepted.push(step);
        }
        assert!(q.capacity() == 3);
    }
    let mut held = Vec::new();
    while let Some(v) = q.pop() {
        held.push(v);
    }
    taken.extend(held);
    assert_eq!(accepted, taken);
}

use rust_study::work_queue::{PopStep, Queue};

#[test]
fn empty_running_queue_asks_to_wait() {
    let mut q: Queue<i32> = Queue::new();
    assert!(matches!(q.pop(), PopStep::Wait));
}

#[test]
fn values_come_out_in_order() {
    let mut q = Queue::new();
    for v in 0..11 {
        assert!(q.push(v));
    }
    for v in 0..11 {
        match q.pop() {
            PopStep::Item(x) => assert_eq!(x, v),
            _ => panic!("expected an item"),
        }
    }
    assert!(matches!(q.pop(), PopStep::Wait));
}

#[test]
fn stopped_queue_refuses_new_values_but_drains_old_ones() {
    let mut q = Queue::new();
    assert!(q.push(1));
    assert!(q.push(2));
    q.stop();
    assert!(!q.push(3));
    assert!(matches!(q.pop(), PopStep::Item(1)));
    assert!(matches!(q.pop(), PopStep::Item(2)));
    assert!(matches!(q.pop(), PopStep::Stopped));
    assert!(matches!(q.pop(), PopStep::Stopped));
}

#[test]
fn stop_on_empty_queue_ends_consumers() {
    let mut q: Queue<String> = Queue::new();
    q.stop();
    assert!(matches!(q.pop(), PopStep::Stopped));
}

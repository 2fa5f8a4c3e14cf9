use rust_study::async_runtime::{yield_now, RunStep, Scheduler, YieldPoll};

#[test]
fn yield_now_pends_once_then_completes() {
    let mut y = yield_now();
    assert!(matches!(y.poll(), YieldPoll::WakeAndPend));
    assert!(matches!(y.poll(), YieldPoll::Ready));
    assert!(matches!(y.poll(), YieldPoll::Ready));
}

#[test]
fn empty_scheduler_is_finished() {
    let mut s = Scheduler::new();
    assert!(matches!(s.next_step(), RunStep::Finished));
}

#[test]
fn tasks_are_polled_in_spawn_order() {
    let mut s = Scheduler::new();
    let a = s.spawn();
    let b = s.spawn();
    assert_eq!((a, b), (0, 1));
    assert!(matches!(s.next_step(), RunStep::Poll(0)));
    assert!(matches!(s.next_step(), RunStep::Poll(1)));
    assert!(matches!(s.next_step(), RunStep::Park));
}

#[test]
fn a_task_is_queued_at_most_once() {
    let mut s = Scheduler::new();
    let a = s.spawn();
    assert!(!s.schedule(a));
    assert!(matches!(s.next_step(), RunStep::Poll(0)));
    assert!(s.schedule(a));
    assert!(!s.schedule(a));
    assert!(matches!(s.next_step(), RunStep::Poll(0)));
    assert!(matches!(s.next_step(), RunStep::Park));
}

#[test]
fn run_ends_when_every_task_completed() {
    let mut s = Scheduler::new();
    let a = s.spawn();
    let b = s.spawn();
    assert!(matches!(s.next_step(), RunStep::Poll(0)));
    s.complete(a);
    assert!(matches!(s.next_step(), RunStep::Poll(1)));
    assert!(matches!(s.next_step(), RunStep::Park));
    assert!(s.schedule(b));
    assert!(matches!(s.next_step(), RunStep::Poll(1)));
    s.complete(b);
    assert!(matches!(s.next_step(), RunStep::Finished));
}

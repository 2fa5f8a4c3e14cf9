use rust_study::dir_stats::{DirStats, EntryAction, EntryKind};
use rust_study::callbacks::{callback_func_1, callback_func_2, increment_tls};
use rust_study::generic::{Data, MyTrait};
use rust_study::generic_constraints;
use rust_study::ownership::gives_ownership;
use rust_study::return_handle::{opt_demo, result_demo};
use rust_study::struct_demo::MyStruct;
use std::cell::Cell;

#[test]
fn option_is_some_only_for_positive() {
    assert_eq!(opt_demo(-2), None);
    assert_eq!(opt_demo(0), None);
    assert_eq!(opt_demo(10), Some(10));
}

#[test]
fn result_is_ok_only_for_positive() {
    assert_eq!(result_demo(10), Ok(10));
    assert_eq!(result_demo(0), Err(String::from("i is negative")));
    assert_eq!(result_demo(-7), Err(String::from("i is negative")));
}

#[test]
fn given_string_is_fresh() {
    assert_eq!(gives_ownership(), "I am new");
}

#[test]
fn my_struct_starts_at_zero_with_hello() {
    let s = MyStruct::new();
    assert_eq!(s.a + s.b, 0);
    assert_eq!(s.c, "hello");
}

#[test]
fn callback_is_called_once() {
    let calls = Cell::new(0);
    callback_func_2(|| calls.set(calls.get() + 1));
    assert_eq!(calls.get(), 1);
}

#[test]
fn tls_counter_increments() {
    let mut count = 0u32;
    increment_tls(&mut count);
    increment_tls(&mut count);
    assert_eq!(count, 2);
}

#[test]
fn data_gives_its_value() {
    let d = Data { value: String::from("hello") };
    assert_eq!(d.get(), "hello");
}

struct Recorder {
    log: std::cell::RefCell<Vec<&'static str>>,
}

impl generic_constraints::MyTrait for Recorder {
    fn foo(&self) {
        self.log.borrow_mut().push("foo");
    }
    fn bar(&self) {
        self.log.borrow_mut().push("bar");
    }
}

#[test]
fn func_calls_foo_then_bar() {
    let r = Recorder { log: std::cell::RefCell::new(Vec::new()) };
    generic_constraints::func(&r);
    assert_eq!(*r.log.borrow(), vec!["foo", "bar"]);
}

#[test]
fn dir_stats_sum_files_and_subdirectories() {
    let mut sub = DirStats::new();
    sub.add_file(17);
    let mut top = DirStats::new();
    top.add_file(10);
    top.add_file(0);
    top.add_dir(&sub);
    assert_eq!(top.file_count, 3);
    assert_eq!(top.total_size, 27);
}

#[test]
fn callback_gets_the_number_in_decimal() {
    assert_eq!(callback_func_1(10, |s: String| Some(s)), Some(String::from("10")));
    assert_eq!(
        callback_func_1(-2147483648, |s: String| Some(s)),
        Some(String::from("-2147483648"))
    );
    assert_eq!(callback_func_1(0, |_s: String| None), None);
}

#[test]
fn visit_entry_counts_files_and_descends_into_directories() {
    let mut stats = DirStats::new();
    assert!(matches!(stats.visit_entry(EntryKind::File(5)), EntryAction::Counted));
    assert!(matches!(stats.visit_entry(EntryKind::Dir), EntryAction::Descend));
    assert!(matches!(stats.visit_entry(EntryKind::Other), EntryAction::Skip));
    assert_eq!((stats.file_count, stats.total_size), (1, 5));
}

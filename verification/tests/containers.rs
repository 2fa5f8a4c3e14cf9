use rust_study::containers::{
    build_title, chars_of, deque_tour, greeting, increment_all, lookup_owner, task_board, vec_tour,
};
use rust_study::score_board::ScoreBoard;

fn owners() -> Vec<(String, String)> {
    vec![
        (String::from("learn rust"), String::from("Alice")),
        (String::from("write demo"), String::from("Bob")),
        (String::from("read book"), String::from("Carol")),
    ]
}

fn pairs(handled: &[(String, String)]) -> Vec<(&str, &str)> {
    handled.iter().map(|(o, t)| (o.as_str(), t.as_str())).collect()
}

#[test]
fn task_board_hands_out_tasks_with_their_owners() {
    let handled = task_board("learn rust,write demo,read book", &owners());
    assert_eq!(
        pairs(&handled),
        vec![("Alice", "learn rust"), ("Bob", "write demo"), ("Carol", "read book")]
    );
}

#[test]
fn task_board_trims_and_falls_back_to_unknown() {
    let handled = task_board("  read book ,cook,, learn rust", &owners());
    assert_eq!(
        pairs(&handled),
        vec![("Carol", "read book"), ("unknown", "cook"), ("unknown", ""), ("Alice", "learn rust")]
    );
}

#[test]
fn task_board_of_empty_text_has_one_empty_task() {
    let handled = task_board("", &Vec::new());
    assert_eq!(pairs(&handled), vec![("unknown", "")]);
}

#[test]
fn lookup_takes_the_first_match() {
    let mut o = owners();
    o.push((String::from("learn rust"), String::from("Zed")));
    assert_eq!(lookup_owner(&o, &String::from("learn rust")), "Alice");
    assert_eq!(lookup_owner(&o, &String::from("sleep")), "unknown");
}

#[test]
fn increment_all_adds_one_to_each() {
    let mut v = vec![10, -1, i32::MAX - 1];
    increment_all(&mut v);
    assert_eq!(v, vec![11, 0, i32::MAX]);
    let mut empty: Vec<i32> = vec![];
    increment_all(&mut empty);
    assert!(empty.is_empty());
}

#[test]
fn vec_tour_records_each_step() {
    let t = vec_tour();
    assert_eq!(t.pushed, vec![10, 20, 30]);
    assert_eq!(t.first, 10);
    assert_eq!(t.tenth, None);
    assert_eq!(t.incremented, vec![11, 21, 31]);
    assert_eq!(t.removed, 21);
    assert_eq!(t.after_remove, vec![11, 31]);
    assert_eq!(t.popped, Some(31));
    assert_eq!(t.remaining, vec![11]);
}

#[test]
fn strings_are_built_piece_by_piece() {
    assert_eq!(build_title(), "Rust containers");
    assert_eq!(greeting("hello", "world"), "hello, world!");
    assert_eq!(chars_of("你好 Rust"), vec!['你', '好', ' ', 'R', 'u', 's', 't']);
    assert_eq!(chars_of(""), Vec::<char>::new());
}

#[test]
fn deque_tour_takes_the_urgent_task_first() {
    let t = deque_tour();
    assert_eq!(t.handled, vec!["urgent-task", "task-1", "task-2"]);
    assert_eq!(t.front.as_deref(), Some("head"));
    assert_eq!(t.back.as_deref(), Some("tail"));
}

#[test]
fn score_board_follows_the_map_demo() {
    let mut scores = ScoreBoard::new();
    assert_eq!(scores.insert(String::from("Alice"), 95), None);
    assert_eq!(scores.insert(String::from("Bob"), 82), None);
    assert_eq!(scores.insert(String::from("Bob"), 88), Some(82));
    assert_eq!(scores.get(&String::from("Alice")), Some(95));
    scores.or_insert_add(String::from("Carol"), 90, 0);
    scores.or_insert_add(String::from("Alice"), 0, 1);
    assert_eq!(scores.remove(&String::from("Bob")), Some(88));
    assert_eq!(scores.remove(&String::from("Bob")), None);
    assert_eq!(scores.get(&String::from("Alice")), Some(96));
    assert_eq!(scores.get(&String::from("Carol")), Some(90));
    assert_eq!(scores.get(&String::from("Bob")), None);
    let entries: Vec<(&str, i32)> =
        scores.entries().iter().map(|(n, s)| (n.as_str(), *s)).collect();
    assert_eq!(entries, vec![("Alice", 96), ("Carol", 90)]);
}

#[test]
fn score_board_insert_replaces_without_duplicates() {
    let mut scores = ScoreBoard::new();
    scores.insert(String::from("x"), 1);
    scores.insert(String::from("y"), 2);
    scores.insert(String::from("x"), 3);
    assert_eq!(scores.entries().len(), 2);
    assert_eq!(scores.get(&String::from("x")), Some(3));
}

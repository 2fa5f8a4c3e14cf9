use crate::text::{trim, trimmed};
use std::collections::VecDeque;
use vstd::prelude::*;

verus! {

/// The pieces of `s` between commas, as `str::split(',')` gives them: one
/// more piece than there are commas, empty pieces included.
pub open spec fn comma_parts(s: Seq<char>) -> Seq<Seq<char>>
    decreases s.len(),
{
    if s.len() == 0 {
        seq![Seq::empty()]
    } else {
        let rest = comma_parts(s.drop_last());
        if s.last() == ',' {
            rest.push(Seq::empty())
        } else {
            rest.update(rest.len() - 1, rest.last().push(s.last()))
        }
    }
}

proof fn lemma_comma_parts_nonempty(s: Seq<char>)
    ensures
        comma_parts(s).len() >= 1,
    decreases s.len(),
{
    if s.len() > 0 {
        lemma_comma_parts_nonempty(s.drop_last());
    }
}

/// `parts` written one after another with a comma between neighbours.
pub open spec fn join_with_commas(parts: Seq<Seq<char>>) -> Seq<char>
    decreases parts.len(),
{
    if parts.len() == 0 {
        Seq::empty()
    } else if parts.len() == 1 {
        parts[0]
    } else {
        join_with_commas(parts.drop_last()) + seq![','] + parts.last()
    }
}

/// Splitting on commas loses nothing and cuts at every comma: the pieces,
/// joined again with commas, give back the text, and no piece holds a
/// comma.
pub proof fn law_comma_parts_rejoin(s: Seq<char>)
    ensures
        join_with_commas(comma_parts(s)) == s,
        forall|i: int|
            0 <= i < comma_parts(s).len() ==> !(#[trigger] comma_parts(s)[i]).contains(','),
    decreases s.len(),
{
    if s.len() > 0 {
        let init = s.drop_last();
        let c = s.last();
        law_comma_parts_rejoin(init);
        lemma_comma_parts_nonempty(init);
        let rest = comma_parts(init);
        let parts = comma_parts(s);
        if c == ',' {
            assert(parts.drop_last() =~= rest);
            assert(join_with_commas(rest) + seq![','] + Seq::<char>::empty() =~= s);
            assert forall|i: int| 0 <= i < parts.len() implies !(#[trigger] parts[i]).contains(
                ',',
            ) by {
                if i < rest.len() {
                    assert(parts[i] == rest[i]);
                }
            }
        } else {
            let x = rest.last();
            if rest.len() == 1 {
                assert(parts[0] == x.push(c));
                assert(x == join_with_commas(rest));
                assert(x.push(c) =~= s);
            } else {
                assert(parts.drop_last() =~= rest.drop_last());
                assert(join_with_commas(rest.drop_last()) + seq![','] + x.push(c) =~= (
                join_with_commas(rest.drop_last()) + seq![','] + x).push(c));
                assert(init.push(c) =~= s);
            }
            assert forall|i: int| 0 <= i < parts.len() implies !(#[trigger] parts[i]).contains(
                ',',
            ) by {
                if i < rest.len() - 1 {
                    assert(parts[i] == rest[i]);
                } else {
                    assert(!rest[i].contains(','));
                    if x.push(c).contains(',') {
                        let k = choose|k: int| 0 <= k < x.push(c).len() && x.push(c)[k] == ',';
                        if k < x.len() {
                            assert(x.contains(x[k]));
                        }
                    }
                }
            }
        }
    }
}

/// The owner recorded for `task` in `owners`, a list of (task, owner)
/// pairs searched from the front, or `"unknown"` when there is none.
pub open spec fn owner_of(owners: Seq<(String, String)>, task: Seq<char>) -> Seq<char>
    decreases owners.len(),
{
    if owners.len() == 0 {
        "unknown"@
    } else if owners[0].0@ == task {
        owners[0].1@
    } else {
        owner_of(owners.drop_first(), task)
    }
}

/// An owner is found exactly for a task whose name is recorded: then it is
/// the owner of the first pair recorded under that very name; otherwise the
/// owner is `"unknown"`.
pub proof fn law_owner_only_for_recorded_name(owners: Seq<(String, String)>, task: Seq<char>)
    ensures
        (forall|k: int| 0 <= k < owners.len() ==> #[trigger] owners[k].0@ != task) ==> owner_of(
            owners,
            task,
        ) == "unknown"@,
        forall|k: int|
            0 <= k < owners.len() && #[trigger] owners[k].0@ == task && (forall|j: int|
                0 <= j < k ==> owners[j].0@ != task) ==> owner_of(owners, task) == owners[k].1@,
    decreases owners.len(),
{
    if owners.len() > 0 {
        let rest = owners.drop_first();
        law_owner_only_for_recorded_name(rest, task);
        if forall|k: int| 0 <= k < owners.len() ==> #[trigger] owners[k].0@ != task {
            assert(owners[0].0@ != task);
            assert forall|k: int| 0 <= k < rest.len() implies #[trigger] rest[k].0@ != task by {
                assert(rest[k] == owners[k + 1]);
                assert(owners[k + 1].0@ != task);
            }
        }
        assert forall|k: int|
            0 <= k < owners.len() && #[trigger] owners[k].0@ == task && (forall|j: int|
                0 <= j < k ==> owners[j].0@ != task) implies owner_of(owners, task)
            == owners[k].1@ by {
            if k > 0 {
                assert(owners[0].0@ != task);
                assert(rest[k - 1] == owners[k]);
                assert forall|j: int| 0 <= j < k - 1 implies rest[j].0@ != task by {
                    assert(rest[j] == owners[j + 1]);
                }
                assert(rest[k - 1].0@ == task);
            }
        }
    }
}

/// The owner recorded for `task` in `owners`, or `"unknown"`.
pub fn lookup_owner(owners: &Vec<(String, String)>, task: &String) -> (owner: String)
    ensures
        owner@ == owner_of(owners@, task@),
        (forall|k: int| 0 <= k < owners@.len() ==> #[trigger] owners@[k].0@ != task@) ==> owner@
            == "unknown"@,
        forall|k: int|
            0 <= k < owners@.len() && #[trigger] owners@[k].0@ == task@ && (forall|j: int|
                0 <= j < k ==> owners@[j].0@ != task@) ==> owner@ == owners@[k].1@,
{
    proof {
        law_owner_only_for_recorded_name(owners@, task@);
    }
    let mut j: usize = 0;
    assert(owners@.skip(0) =~= owners@);
    while j < owners.len()
        invariant
            j <= owners@.len(),
            owner_of(owners@, task@) == owner_of(owners@.skip(j as int), task@),
        decreases owners@.len() - j,
    {
        if owners[j].0 == *task {
            proof {
                law_owner_only_for_recorded_name(owners@, task@);
            }
            return owners[j].1.clone();
        }
        assert(owners@.skip(j as int).drop_first() =~= owners@.skip(j + 1));
        j = j + 1;
    }
    String::from_str("unknown")
}

/// Splits `raw_tasks` on commas, trims each task, hands the tasks out first
/// in first out and pairs each with its owner from `owners` (`"unknown"`
/// when it has none). Returns the (owner, task) pairs in the order handled.
pub fn task_board(raw_tasks: &str, owners: &Vec<(String, String)>) -> (handled: Vec<(String, String)>)
    ensures
        handled@.len() == comma_parts(raw_tasks@).len(),
        forall|i: int|
            0 <= i < handled@.len() ==> handled@[i].1@ == trimmed(comma_parts(raw_tasks@)[i])
                && handled@[i].0@ == owner_of(owners@, handled@[i].1@),
{
    let n = raw_tasks.unicode_len();
    let mut waiting: VecDeque<String> = VecDeque::new();
    let ghost mut done: Seq<Seq<char>> = Seq::empty();
    let mut start: usize = 0;
    let mut i: usize = 0;
    proof {
        assert(raw_tasks@.take(0) =~= Seq::<char>::empty());
        assert(raw_tasks@.subrange(0, 0) =~= Seq::<char>::empty());
    }
    while i < n
        invariant
            n == raw_tasks@.len(),
            start <= i <= n,
            comma_parts(raw_tasks@.take(i as int)) == done.push(raw_tasks@.subrange(
                start as int,
                i as int,
            )),
            waiting@.len() == done.len(),
            forall|j: int| 0 <= j < done.len() ==> #[trigger] waiting@[j]@ == trimmed(done[j]),
        decreases n - i,
    {
        let c = raw_tasks.get_char(i);
        proof {
            let t = raw_tasks@.take(i + 1);
            assert(t.drop_last() =~= raw_tasks@.take(i as int));
            assert(t.last() == c);
            lemma_comma_parts_nonempty(t.drop_last());
        }
        if c == ',' {
            let part = raw_tasks.substring_char(start, i);
            let task = String::from_str(trim(part));
            let ghost old_waiting = waiting@;
            waiting.push_back(task);
            proof {
                done = done.push(raw_tasks@.subrange(start as int, i as int));
                assert forall|j: int| 0 <= j < done.len() implies #[trigger] waiting@[j]@
                    == trimmed(done[j]) by {
                    if j < done.len() - 1 {
                        assert(waiting@[j] == old_waiting[j]);
                    }
                }
                assert(raw_tasks@.subrange((i + 1) as int, (i + 1) as int) =~= Seq::<char>::empty());
            }
            start = i + 1;
        } else {
            proof {
                assert(raw_tasks@.subrange(start as int, i + 1) =~= raw_tasks@.subrange(
                    start as int,
                    i as int,
                ).push(c));
            }
        }
        i = i + 1;
    }
    let part = raw_tasks.substring_char(start, n);
    let task = String::from_str(trim(part));
    let ghost old_waiting = waiting@;
    waiting.push_back(task);
    let ghost parts = done.push(raw_tasks@.subrange(start as int, n as int));
    proof {
        assert(raw_tasks@.take(n as int) =~= raw_tasks@);
        assert forall|j: int| 0 <= j < parts.len() implies #[trigger] waiting@[j]@ == trimmed(
            parts[j],
        ) by {
            if j < parts.len() - 1 {
                assert(waiting@[j] == old_waiting[j]);
            }
        }
    }
    let mut handled: Vec<(String, String)> = Vec::new();
    while waiting.len() > 0
        invariant
            parts == comma_parts(raw_tasks@),
            handled@.len() + waiting@.len() == parts.len(),
            forall|j: int|
                0 <= j < handled@.len() ==> #[trigger] handled@[j].1@ == trimmed(parts[j])
                    && handled@[j].0@ == owner_of(owners@, handled@[j].1@),
            forall|j: int|
                0 <= j < waiting@.len() ==> #[trigger] waiting@[j]@ == trimmed(
                    parts[handled@.len() + j],
                ),
        decreases waiting@.len(),
    {
        let ghost before = waiting@;
        match waiting.pop_front() {
            Some(task) => {
                proof {
                    assert(task@ == trimmed(parts[handled@.len() as int]));
                    assert forall|j: int| 0 <= j < waiting@.len() implies #[trigger] waiting@[j]@
                        == trimmed(parts[handled@.len() + 1 + j]) by {
                        assert(waiting@[j] == before[j + 1]);
                    }
                }
                let owner = lookup_owner(owners, &task);
                handled.push((owner, task));
            },
            None => {},
        }
    }
    handled
}

/// Adds one to every number, in place.
pub fn increment_all(numbers: &mut Vec<i32>)
    requires
        forall|i: int| 0 <= i < old(numbers)@.len() ==> old(numbers)@[i] < i32::MAX,
    ensures
        final(numbers)@ == old(numbers)@.map_values(|v: i32| (v + 1) as i32),
{
    let n = numbers.len();
    let mut i: usize = 0;
    while i < n
        invariant
            n == numbers@.len(),
            n == old(numbers)@.len(),
            i <= n,
            forall|j: int| 0 <= j < n ==> old(numbers)@[j] < i32::MAX,
            forall|j: int| 0 <= j < i ==> numbers@[j] == old(numbers)@[j] + 1,
            forall|j: int| i <= j < n ==> numbers@[j] == old(numbers)@[j],
        decreases n - i,
    {
        numbers[i] = numbers[i] + 1;
        i = i + 1;
    }
    assert(numbers@ =~= old(numbers)@.map_values(|v: i32| (v + 1) as i32));
}

/// What the walk through `Vec` operations observes.
pub struct VecTour {
    /// The numbers after three pushes.
    pub pushed: Vec<i32>,
    /// The first number.
    pub first: i32,
    /// The number at index 10, which does not exist.
    pub tenth: Option<i32>,
    /// The numbers after adding one to each.
    pub incremented: Vec<i32>,
    /// The number removed at index 1.
    pub removed: i32,
    /// The numbers after that removal.
    pub after_remove: Vec<i32>,
    /// The number popped from the back.
    pub popped: Option<i32>,
    /// The numbers left at the end.
    pub remaining: Vec<i32>,
}

/// Pushes 10, 20 and 30, reads index 0 and index 10, adds one to each,
/// removes the element at index 1 and pops the last one, recording what
/// each step gives.
pub fn vec_tour() -> (t: VecTour)
    ensures
        t.pushed@ == seq![10i32, 20, 30],
        t.first == 10,
        t.tenth == None::<i32>,
        t.incremented@ == seq![11i32, 21, 31],
        t.removed == 21,
        t.after_remove@ == seq![11i32, 31],
        t.popped == Some(31i32),
        t.remaining@ == seq![11i32],
{
    let mut numbers: Vec<i32> = Vec::new();
    numbers.push(10);
    numbers.push(20);
    numbers.push(30);
    let pushed = numbers.clone();
    let first = numbers[0];
    let tenth = match numbers.as_slice().get(10) {
        Some(v) => Some(*v),
        None => None,
    };
    increment_all(&mut numbers);
    let incremented = numbers.clone();
    let removed = numbers.remove(1);
    let after_remove = numbers.clone();
    let popped = numbers.pop();
    proof {
        assert(pushed@ =~= seq![10i32, 20, 30]);
        assert(incremented@ =~= seq![11i32, 21, 31]);
        assert(after_remove@ =~= seq![11i32, 31]);
        assert(numbers@ =~= seq![11i32]);
    }
    VecTour {
        pushed,
        first,
        tenth,
        incremented,
        removed,
        after_remove,
        popped,
        remaining: numbers,
    }
}

/// The text built up piece by piece: `"Rust"`, a space, `"containers"`.
pub fn build_title() -> (title: String)
    ensures
        title@ == "Rust containers"@,
{
    let mut title = String::new();
    title.append("Rust");
    title.append(" ");
    title.append("containers");
    proof {
        reveal_strlit("Rust");
        reveal_strlit(" ");
        reveal_strlit("containers");
        reveal_strlit("Rust containers");
        assert(title@ =~= "Rust containers"@);
    }
    title
}

/// `"<hello>, <world>!"`.
pub fn greeting(hello: &str, world: &str) -> (message: String)
    ensures
        message@ == hello@ + ", "@ + world@ + "!"@,
{
    let mut message = String::from_str(hello);
    message.append(", ");
    message.append(world);
    message.append("!");
    message
}

/// The characters of `s`, in order.
pub fn chars_of(s: &str) -> (chars: Vec<char>)
    ensures
        chars@ == s@,
{
    let n = s.unicode_len();
    let mut chars: Vec<char> = Vec::new();
    let mut i: usize = 0;
    while i < n
        invariant
            n == s@.len(),
            i <= n,
            chars@ == s@.take(i as int),
        decreases n - i,
    {
        chars.push(s.get_char(i));
        proof {
            assert(chars@ =~= s@.take(i + 1));
        }
        i = i + 1;
    }
    assert(chars@ =~= s@);
    chars
}

/// What the walk through `VecDeque` operations observes.
pub struct DequeTour {
    /// The tasks in the order they were taken from the front.
    pub handled: Vec<String>,
    /// The front of the queue at the end.
    pub front: Option<String>,
    /// The back of the queue at the end.
    pub back: Option<String>,
}

/// A copy of the front value of `queue`, if any.
pub fn front_of(queue: &VecDeque<String>) -> (front: Option<String>)
    ensures
        front == (if queue@.len() > 0 {
            Some(queue@[0])
        } else {
            None
        }),
{
    if queue.len() > 0 {
        Some(queue[0].clone())
    } else {
        None
    }
}

/// A copy of the back value of `queue`, if any.
pub fn back_of(queue: &VecDeque<String>) -> (back: Option<String>)
    ensures
        back == (if queue@.len() > 0 {
            Some(queue@[queue@.len() - 1])
        } else {
            None
        }),
{
    let n = queue.len();
    if n > 0 {
        Some(queue[n - 1].clone())
    } else {
        None
    }
}

/// Queues `"task-1"` and `"task-2"` at the back and `"urgent-task"` at the
/// front, takes them all from the front, then puts `"tail"` at the back and
/// `"head"` at the front.
pub fn deque_tour() -> (t: DequeTour)
    ensures
        t.handled@.len() == 3,
        t.handled@[0]@ == "urgent-task"@,
        t.handled@[1]@ == "task-1"@,
        t.handled@[2]@ == "task-2"@,
        t.front matches Some(f) && f@ == "head"@,
        t.back matches Some(b) && b@ == "tail"@,
{
    let mut queue: VecDeque<String> = VecDeque::new();
    queue.push_back(String::from_str("task-1"));
    queue.push_back(String::from_str("task-2"));
    queue.push_front(String::from_str("urgent-task"));
    let ghost start = queue@;
    let mut handled: Vec<String> = Vec::new();
    while queue.len() > 0
        invariant
            start.len() == 3,
            start[0]@ == "urgent-task"@,
            start[1]@ == "task-1"@,
            start[2]@ == "task-2"@,
            handled@.len() + queue@.len() == 3,
            forall|j: int| 0 <= j < handled@.len() ==> #[trigger] handled@[j] == start[j],
            forall|j: int| 0 <= j < queue@.len() ==> #[trigger] queue@[j] == start[handled@.len() + j],
        decreases queue@.len(),
    {
        let ghost before = queue@;
        match queue.pop_front() {
            Some(task) => {
                proof {
                    assert forall|j: int| 0 <= j < queue@.len() implies #[trigger] queue@[j]
                        == start[handled@.len() + 1 + j] by {
                        assert(queue@[j] == before[j + 1]);
                    }
                }
                handled.push(task);
            },
            None => {},
        }
    }
    queue.push_back(String::from_str("tail"));
    queue.push_front(String::from_str("head"));
    let front = front_of(&queue);
    let back = back_of(&queue);
    DequeTour { handled, front, back }
}

} // verus!

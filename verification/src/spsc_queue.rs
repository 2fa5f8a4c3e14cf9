use vstd::prelude::*;

verus! {

/// The value that marks a free slot; it can never be queued.
pub const EMPTY: i32 = i32::MIN;

/// The queue after an attempt to push `value` onto `items` with room for
/// `capacity` values: a full queue stays as it was.
pub open spec fn push_model(items: Seq<i32>, capacity: nat, value: i32) -> Seq<i32> {
    if items.len() < capacity {
        items.push(value)
    } else {
        items
    }
}

/// What a pop takes from `items`: the front value, if there is one.
pub open spec fn pop_value_model(items: Seq<i32>) -> Option<i32> {
    if items.len() == 0 {
        None
    } else {
        Some(items[0])
    }
}

/// The queue after a pop from `items`.
pub open spec fn pop_rest_model(items: Seq<i32>) -> Seq<i32> {
    if items.len() == 0 {
        items
    } else {
        items.drop_first()
    }
}

/// The queue after pushing each of `values` in turn onto `items`.
pub open spec fn fill_model(items: Seq<i32>, capacity: nat, values: Seq<i32>) -> Seq<i32>
    decreases values.len(),
{
    if values.len() == 0 {
        items
    } else {
        fill_model(push_model(items, capacity, values[0]), capacity, values.drop_first())
    }
}

/// The values that `count` pops take from `items`, in the order they come out.
pub open spec fn drain_model(items: Seq<i32>, count: nat) -> Seq<Option<i32>>
    decreases count,
{
    if count == 0 {
        Seq::empty()
    } else {
        seq![pop_value_model(items)] + drain_model(pop_rest_model(items), (count - 1) as nat)
    }
}

/// A bounded first-in first-out ring buffer of `N` slots holding at most
/// `N - 1` values: one slot always stays free, so that `head == tail`
/// means empty and `next(tail) == head` means full.
pub struct SpscQueue<const N: usize> {
    buffer: Vec<i32>,
    head: usize,
    tail: usize,
}

impl<const N: usize> SpscQueue<N> {
    /// The number of values between `head` and `tail`.
    closed spec fn count(self) -> int {
        if self.head <= self.tail {
            self.tail - self.head
        } else {
            self.tail + N - self.head
        }
    }

    /// The slot that holds the value at position `i` from the front.
    closed spec fn slot(self, i: int) -> int {
        if self.head + i < N {
            self.head + i
        } else {
            self.head + i - N
        }
    }

    /// Whether slot `j` currently holds a queued value.
    closed spec fn occupied(self, j: int) -> bool {
        if self.head <= self.tail {
            self.head <= j < self.tail
        } else {
            j >= self.head || j < self.tail
        }
    }

    #[verifier::type_invariant]
    closed spec fn well_formed(self) -> bool {
        &&& N > 1
        &&& self.buffer@.len() == N
        &&& self.head < N
        &&& self.tail < N
        &&& forall|j: int| 0 <= j < N && self.occupied(j) ==> #[trigger] self.buffer@[j] != EMPTY
    }

    /// The number of values the queue can hold at once.
    pub open spec fn spec_capacity(self) -> nat {
        (N - 1) as nat
    }

    /// What holds of every queue at every moment: it has more than one
    /// slot, holds at most `N - 1` values, and never holds `EMPTY`.
    pub open spec fn valid_contents(self) -> bool {
        &&& N > 1
        &&& self@.len() <= self.spec_capacity()
        &&& !self@.contains(EMPTY)
    }

    fn next(index: usize) -> (r: usize)
        requires
            index < N,
        ensures
            r == (if index + 1 < N { index + 1 } else { 0 }),
    {
        proof {
            if index + 1 < N {
                vstd::arithmetic::div_mod::lemma_small_mod((index + 1) as nat, N as nat);
            } else {
                vstd::arithmetic::div_mod::lemma_mod_self_0(N as int);
            }
        }
        (index + 1) % N
    }

    /// An empty queue with `N` slots.
    pub fn new() -> (q: Self)
        requires
            N > 1,
        ensures
            q.valid_contents(),
            q@ == Seq::<i32>::empty(),
    {
        let mut buffer: Vec<i32> = Vec::new();
        let mut i: usize = 0;
        while i < N
            invariant
                i <= N,
                buffer@.len() == i,
                forall|j: int| 0 <= j < i ==> buffer@[j] == EMPTY,
            decreases N - i,
        {
            buffer.push(EMPTY);
            i = i + 1;
        }
        let q = Self { buffer, head: 0, tail: 0 };
        assert(q@ =~= Seq::<i32>::empty());
        proof {
            q.lemma_count_bound();
        }
        q
    }

    /// The number of values the queue can hold at once: one slot less than
    /// it has.
    pub fn capacity(&self) -> (c: usize)
        ensures
            c == self.spec_capacity(),
            c == N - 1,
            self.valid_contents(),
    {
        proof {
            use_type_invariant(self);
            self.lemma_count_bound();
        }
        N - 1
    }

    /// Appends `value` at the back unless the queue is full, in which case
    /// the value is handed back and the queue is unchanged.
    pub fn push(&mut self, value: i32) -> (r: Result<(), i32>)
        requires
            value != EMPTY,
        ensures
            final(self).valid_contents(),
            r is Ok <==> old(self)@.len() < old(self).spec_capacity(),
            r matches Err(v) ==> v == value,
            r is Ok ==> final(self)@ == old(self)@.push(value),
            r is Err ==> final(self)@ == old(self)@,
            final(self)@ == push_model(old(self)@, old(self).spec_capacity(), value),
            final(self)@.len() <= final(self).spec_capacity(),
    {
        proof {
            use_type_invariant(&*self);
            self.lemma_count_bound();
        }
        let tail = self.tail;
        let next_tail = Self::next(tail);
        let head = self.head;
        if next_tail == head {
            return Err(value);
        }
        let ghost old_q = *self;
        proof {
            assert(!self.occupied(tail as int));
        }
        self.buffer[tail] = value;
        proof {
            assert(self.buffer@[tail as int] == value);
        }
        self.tail = next_tail;
        proof {
            let new_q = *self;
            assert(new_q.count() == old_q.count() + 1);
            assert forall|i: int| 0 <= i < old_q.count() implies new_q.slot(i) == old_q.slot(i)
                && new_q.slot(i) != tail by {}
            assert(new_q.slot(old_q.count()) == tail);
            assert(new_q@ =~= old_q@.push(value));
            new_q.lemma_count_bound();
        }
        Ok(())
    }

    /// Removes and returns the front value, or `None` when the queue is
    /// empty.
    pub fn pop(&mut self) -> (r: Option<i32>)
        ensures
            final(self).valid_contents(),
            r == pop_value_model(old(self)@),
            final(self)@ == pop_rest_model(old(self)@),
            r matches Some(v) ==> v != EMPTY,
            final(self)@.len() <= final(self).spec_capacity(),
    {
        proof {
            use_type_invariant(&*self);
            self.lemma_count_bound();
        }
        let head = self.head;
        let tail = self.tail;
        if head == tail {
            return None;
        }
        let ghost old_q = *self;
        let value = self.buffer[head];
        proof {
            assert(old_q.slot(0) == head);
            assert(old_q.occupied(head as int));
        }
        let next_head = Self::next(head);
        proof {
            assert forall|j: int| 0 <= j < N && (Self { head: next_head, ..*self }).occupied(j)
                implies self.occupied(j) && j != head by {}
        }
        self.head = next_head;
        proof {
            assert(!self.occupied(head as int));
        }
        self.buffer[head] = EMPTY;
        proof {
            let new_q = *self;
            assert(new_q.count() == old_q.count() - 1);
            assert forall|i: int| 0 <= i < new_q.count() implies new_q.slot(i) == old_q.slot(
                i + 1,
            ) && old_q.slot(i + 1) != head by {}
            assert(new_q@ =~= old_q@.drop_first());
            new_q.lemma_count_bound();
        }
        Some(value)
    }

    /// Whether no value is queued.
    pub fn is_empty(&self) -> (b: bool)
        ensures
            b == (self@.len() == 0),
            self.valid_contents(),
    {
        proof {
            use_type_invariant(self);
            self.lemma_count_bound();
        }
        self.head == self.tail
    }

    proof fn lemma_count_bound(self)
        requires
            self.well_formed(),
        ensures
            0 <= self.count() <= N - 1,
            self.count() == self@.len(),
            forall|i: int| 0 <= i < self.count() ==> 0 <= #[trigger] self.slot(i) < N
                && self.occupied(self.slot(i)),
            self.valid_contents(),
    {
        if self@.contains(EMPTY) {
            let i = choose|i: int| 0 <= i < self@.len() && self@[i] == EMPTY;
            assert(self.occupied(self.slot(i)));
        }
    }
}

impl<const N: usize> View for SpscQueue<N> {
    type V = Seq<i32>;

    /// The queued values, front first.
    closed spec fn view(&self) -> Seq<i32> {
        Seq::new(self.count() as nat, |i: int| self.buffer@[self.slot(i)])
    }
}

/// A push onto a queue with room appends the value at the back; a push
/// onto a full queue leaves it exactly as it was.
pub proof fn law_push_appends_or_changes_nothing(items: Seq<i32>, capacity: nat, value: i32)
    ensures
        items.len() < capacity ==> push_model(items, capacity, value).len() == items.len() + 1
            && push_model(items, capacity, value).last() == value && push_model(
            items,
            capacity,
            value,
        ).take(items.len() as int) == items,
        items.len() >= capacity ==> push_model(items, capacity, value) == items,
{
    if items.len() < capacity {
        assert(items.push(value).take(items.len() as int) =~= items);
    }
}

/// A pop from a non-empty queue gives its front value and leaves the rest
/// in order; a pop from an empty queue gives nothing and changes nothing.
pub proof fn law_pop_takes_the_front(items: Seq<i32>)
    ensures
        items.len() > 0 ==> pop_value_model(items) == Some(items[0]) && pop_rest_model(items).len()
            + 1 == items.len() && forall|i: int|
            0 <= i < pop_rest_model(items).len() ==> #[trigger] pop_rest_model(items)[i] == items[i
                + 1],
        items.len() == 0 ==> pop_value_model(items) is None && pop_rest_model(items) == items,
{
}

/// A queue never holds more values than its capacity, whatever is pushed
/// or popped.
pub proof fn law_length_within_capacity(items: Seq<i32>, capacity: nat, value: i32)
    requires
        items.len() <= capacity,
    ensures
        push_model(items, capacity, value).len() <= capacity,
        pop_rest_model(items).len() <= capacity,
{
}

/// Pushing a value onto an empty queue with room and popping gives the
/// value back and leaves the queue empty.
pub proof fn law_push_then_pop(capacity: nat, value: i32)
    requires
        capacity > 0,
    ensures
        pop_value_model(push_model(Seq::empty(), capacity, value)) == Some(value),
        pop_rest_model(push_model(Seq::empty(), capacity, value)) == Seq::<i32>::empty(),
{
    assert(push_model(Seq::empty(), capacity, value).drop_first() =~= Seq::<i32>::empty());
}

/// Values that fit are all accepted and stand behind the queued ones.
pub proof fn law_fill_appends(items: Seq<i32>, capacity: nat, values: Seq<i32>)
    requires
        items.len() + values.len() <= capacity,
    ensures
        fill_model(items, capacity, values) == items + values,
    decreases values.len(),
{
    if values.len() > 0 {
        law_fill_appends(items.push(values[0]), capacity, values.drop_first());
        assert(items.push(values[0]) + values.drop_first() =~= items + values);
    }
}

/// Popping as many times as there are values gives them back front first.
pub proof fn law_drain_in_order(items: Seq<i32>)
    ensures
        drain_model(items, items.len()) == items.map_values(|v: i32| Some(v)),
    decreases items.len(),
{
    if items.len() > 0 {
        law_drain_in_order(items.drop_first());
        assert(seq![Some(items[0])] + items.drop_first().map_values(|v: i32| Some(v))
            =~= items.map_values(|v: i32| Some(v)));
    }
}

/// First in, first out: values pushed onto an empty queue with room for
/// them come out in the order they went in.
pub proof fn law_first_in_first_out(capacity: nat, values: Seq<i32>)
    requires
        values.len() <= capacity,
    ensures
        drain_model(fill_model(Seq::empty(), capacity, values), values.len()) == values.map_values(
            |v: i32| Some(v),
        ),
{
    law_fill_appends(Seq::empty(), capacity, values);
    assert(Seq::<i32>::empty() + values =~= values);
    law_drain_in_order(values);
}

/// One call made on a queue.
pub enum QueueOp {
    /// A push of the value.
    Push(i32),
    /// A pop.
    Pop,
}

/// The queue, the values accepted by pushes and the values taken by pops,
/// after the calls `ops` made in order on a queue that held `start`.
pub open spec fn run_queue_ops(start: Seq<i32>, capacity: nat, ops: Seq<QueueOp>) -> (
    Seq<i32>,
    Seq<i32>,
    Seq<i32>,
)
    decreases ops.len(),
{
    if ops.len() == 0 {
        (start, Seq::empty(), Seq::empty())
    } else {
        let (held, accepted, taken) = run_queue_ops(start, capacity, ops.drop_last());
        match ops.last() {
            QueueOp::Push(v) => if held.len() < capacity {
                (push_model(held, capacity, v), accepted.push(v), taken)
            } else {
                (held, accepted, taken)
            },
            QueueOp::Pop => if held.len() == 0 {
                (held, accepted, taken)
            } else {
                (pop_rest_model(held), accepted, taken.push(held[0]))
            },
        }
    }
}

/// Nothing is lost, duplicated, reordered or invented: after any sequence
/// of pushes and pops, the values held at the start followed by the values
/// accepted by pushes are the values taken by pops followed by the values
/// still held; the queue never holds more than its capacity, and it never
/// holds `EMPTY` when no push offered it.
pub proof fn law_queue_conserves_values(start: Seq<i32>, capacity: nat, ops: Seq<QueueOp>)
    requires
        start.len() <= capacity,
        !start.contains(EMPTY),
        forall|i: int| 0 <= i < ops.len() ==> #[trigger] ops[i] != QueueOp::Push(EMPTY),
    ensures
        start + run_queue_ops(start, capacity, ops).1 == run_queue_ops(start, capacity, ops).2
            + run_queue_ops(start, capacity, ops).0,
        run_queue_ops(start, capacity, ops).0.len() <= capacity,
        !run_queue_ops(start, capacity, ops).0.contains(EMPTY),
    decreases ops.len(),
{
    if ops.len() > 0 {
        let prefix = ops.drop_last();
        assert forall|i: int| 0 <= i < prefix.len() implies #[trigger] prefix[i] != QueueOp::Push(
            EMPTY,
        ) by {
            assert(prefix[i] == ops[i]);
        }
        law_queue_conserves_values(start, capacity, prefix);
        let (held, accepted, taken) = run_queue_ops(start, capacity, prefix);
        assert(ops[ops.len() - 1] != QueueOp::Push(EMPTY));
        match ops.last() {
            QueueOp::Push(v) => {
                if held.len() < capacity {
                    assert(start + accepted.push(v) =~= (start + accepted).push(v));
                    assert(taken + held.push(v) =~= (taken + held).push(v));
                    assert(!held.push(v).contains(EMPTY)) by {
                        if held.push(v).contains(EMPTY) {
                            let k = choose|k: int|
                                0 <= k < held.push(v).len() && held.push(v)[k] == EMPTY;
                            if k < held.len() {
                                assert(held.contains(held[k]));
                            }
                        }
                    }
                }
            },
            QueueOp::Pop => {
                if held.len() > 0 {
                    assert(taken.push(held[0]) + held.drop_first() =~= taken + held);
                    assert(!held.drop_first().contains(EMPTY)) by {
                        if held.drop_first().contains(EMPTY) {
                            let k = choose|k: int|
                                0 <= k < held.drop_first().len() && held.drop_first()[k] == EMPTY;
                            assert(held[k + 1] == EMPTY);
                        }
                    }
                }
            },
        }
    }
}

} // verus!

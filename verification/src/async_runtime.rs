use std::collections::VecDeque;
use vstd::prelude::*;

verus! {

/// What a future that yields once reports when it is polled.
pub enum YieldPoll {
    /// The future has completed.
    Ready,
    /// The future has just yielded: its waker is to be woken, and the future
    /// reports that it is pending.
    WakeAndPend,
}

/// A future that gives up the worker once before completing.
pub struct YieldNow {
    is_yielded: bool,
}

/// A future that yields once and completes when polled again.
pub fn yield_now() -> (y: YieldNow)
    ensures
        !y.has_yielded(),
{
    YieldNow { is_yielded: false }
}

impl YieldNow {
    /// Whether the future has already yielded.
    pub closed spec fn has_yielded(self) -> bool {
        self.is_yielded
    }

    /// One poll: the first one yields, every later one completes.
    pub fn poll(&mut self) -> (r: YieldPoll)
        ensures
            r == (if old(self).has_yielded() {
                YieldPoll::Ready
            } else {
                YieldPoll::WakeAndPend
            }),
            final(self).has_yielded(),
    {
        if self.is_yielded {
            YieldPoll::Ready
        } else {
            self.is_yielded = true;
            YieldPoll::WakeAndPend
        }
    }
}

/// The number of `false` entries in `flags`.
pub open spec fn count_false(flags: Seq<bool>) -> nat
    decreases flags.len(),
{
    if flags.len() == 0 {
        0
    } else {
        count_false(flags.drop_last()) + if flags.last() {
            0nat
        } else {
            1nat
        }
    }
}

proof fn lemma_count_false_push(flags: Seq<bool>, b: bool)
    ensures
        count_false(flags.push(b)) == count_false(flags) + if b {
            0nat
        } else {
            1nat
        },
{
    assert(flags.push(b).drop_last() =~= flags);
}

proof fn lemma_count_false_set_true(flags: Seq<bool>, i: int)
    requires
        0 <= i < flags.len(),
        !flags[i],
    ensures
        count_false(flags.update(i, true)) + 1 == count_false(flags),
    decreases flags.len(),
{
    if i < flags.len() - 1 {
        lemma_count_false_set_true(flags.drop_last(), i);
        assert(flags.update(i, true).drop_last() =~= flags.drop_last().update(i, true));
    } else {
        assert(flags.update(i, true).drop_last() =~= flags.drop_last());
    }
}

proof fn lemma_count_false_zero(flags: Seq<bool>)
    ensures
        count_false(flags) == 0 <==> forall|i: int| 0 <= i < flags.len() ==> #[trigger] flags[i],
        count_false(flags) <= flags.len(),
    decreases flags.len(),
{
    if flags.len() > 0 {
        lemma_count_false_zero(flags.drop_last());
        if count_false(flags) == 0 {
            assert forall|i: int| 0 <= i < flags.len() implies #[trigger] flags[i] by {
                if i < flags.len() - 1 {
                    assert(flags.drop_last()[i] == flags[i]);
                }
            }
        }
        if forall|i: int| 0 <= i < flags.len() ==> #[trigger] flags[i] {
            assert forall|i: int| 0 <= i < flags.drop_last().len() implies #[trigger] flags.drop_last()[i] by {
                assert(flags[i]);
            }
        }
    }
}

/// What the worker of a runtime is to do next.
pub enum RunStep {
    /// Every task has completed: the run is over.
    Finished,
    /// Poll the task with this id once; it has left the run queue.
    Poll(usize),
    /// The run queue is empty but some task has not completed: sleep until a
    /// waker schedules a task.
    Park,
}

/// The bookkeeping behind a `Scheduler`.
struct SchedulerState {
    queue: VecDeque<usize>,
    queued: Vec<bool>,
    finished: Vec<bool>,
    task_count: usize,
}

impl SchedulerState {
    /// The number of tasks ever spawned; their ids are `0..tasks()`.
    spec fn tasks(self) -> nat {
        self.queued@.len()
    }

    /// The ids waiting to be polled, in the order they will be polled.
    spec fn run_queue(self) -> Seq<usize> {
        self.queue@
    }

    /// Whether task `id` is waiting in the run queue.
    spec fn is_queued(self, id: int) -> bool {
        self.queued@[id]
    }

    /// Whether task `id` has completed.
    spec fn is_finished(self, id: int) -> bool {
        self.finished@[id]
    }

    /// The number of tasks that have not completed.
    spec fn pending_tasks(self) -> nat {
        self.task_count as nat
    }

    /// The scheduler's internal consistency, which every operation keeps.
    spec fn well_formed(self) -> bool {
        &&& self.finished@.len() == self.queued@.len()
        &&& self.task_count == count_false(self.finished@)
        &&& forall|i: int| 0 <= i < self.queue@.len() ==> #[trigger] self.queue@[i] < self.queued@.len()
        &&& forall|i: int, j: int|
            0 <= i < j < self.queue@.len() ==> #[trigger] self.queue@[i] != #[trigger] self.queue@[j]
        &&& forall|id: usize|
            id < self.queued@.len() ==> (#[trigger] self.queued@[id as int] <==> self.queue@.contains(
                id,
            ))
    }

    /// A scheduler with no tasks.
    fn new() -> (s: Self)
        ensures
            s.well_formed(),
            s.tasks() == 0,
            s.pending_tasks() == 0,
            s.run_queue() == Seq::<usize>::empty(),
    {
        SchedulerState { queue: VecDeque::new(), queued: Vec::new(), finished: Vec::new(), task_count: 0 }
    }

    /// Registers a new task, already in the run queue, and returns its id.
    fn spawn(&mut self) -> (id: usize)
        requires
            old(self).well_formed(),
            old(self).tasks() < usize::MAX,
        ensures
            final(self).well_formed(),
            id == old(self).tasks(),
            final(self).tasks() == old(self).tasks() + 1,
            final(self).pending_tasks() == old(self).pending_tasks() + 1,
            final(self).run_queue() == old(self).run_queue().push(id),
            final(self).is_queued(id as int),
            !final(self).is_finished(id as int),
            forall|t: int|
                0 <= t < old(self).tasks() ==> final(self).is_queued(t) == old(self).is_queued(t)
                    && final(self).is_finished(t) == old(self).is_finished(t),
    {
        proof {
            lemma_count_false_zero(self.finished@);
            lemma_count_false_push(self.finished@, false);
        }
        let id = self.queued.len();
        self.queued.push(true);
        self.finished.push(false);
        self.task_count = self.task_count + 1;
        self.queue.push_back(id);
        proof {
            assert forall|t: usize| t < self.queued@.len() implies (#[trigger] self.queued@[t as int]
                <==> self.queue@.contains(t)) by {
                if t < id {
                    if self.queue@.contains(t) {
                        let k = choose|k: int| 0 <= k < self.queue@.len() && self.queue@[k] == t;
                        if k == old(self).queue@.len() {
                            assert(self.queue@[k] == id);
                        }
                        assert(old(self).queue@[k] == t);
                    }
                    if old(self).queue@.contains(t) {
                        let k = choose|k: int| 0 <= k < old(self).queue@.len() && old(self).queue@[k] == t;
                        assert(self.queue@[k] == t);
                    }
                } else {
                    assert(self.queue@[self.queue@.len() - 1] == id);
                }
            }
        }
        id
    }

    /// Puts task `id` back into the run queue unless it is already there.
    /// Returns whether it was added, that is, whether the worker is to be
    /// woken.
    fn schedule(&mut self, id: usize) -> (added: bool)
        requires
            old(self).well_formed(),
            id < old(self).tasks(),
        ensures
            final(self).well_formed(),
            added == !old(self).is_queued(id as int),
            final(self).run_queue() == (if added {
                old(self).run_queue().push(id)
            } else {
                old(self).run_queue()
            }),
            final(self).is_queued(id as int),
            final(self).tasks() == old(self).tasks(),
            final(self).pending_tasks() == old(self).pending_tasks(),
            forall|t: int|
                0 <= t < old(self).tasks() ==> final(self).is_finished(t) == old(self).is_finished(t)
                    && (t != id ==> final(self).is_queued(t) == old(self).is_queued(t)),
    {
        if self.queued[id] {
            return false;
        }
        self.queued.set(id, true);
        self.queue.push_back(id);
        proof {
            assert(!old(self).queue@.contains(id));
            assert(self.queue@ == old(self).queue@.push(id));
            assert forall|t: usize| t < self.queued@.len() implies (#[trigger] self.queued@[t as int]
                <==> self.queue@.contains(t)) by {
                if t != id {
                    if self.queue@.contains(t) {
                        let k = choose|k: int| 0 <= k < self.queue@.len() && self.queue@[k] == t;
                        if k == old(self).queue@.len() {
                            assert(self.queue@[k] == id);
                        }
                        assert(old(self).queue@[k] == t);
                    }
                    if old(self).queue@.contains(t) {
                        let k = choose|k: int| 0 <= k < old(self).queue@.len() && old(self).queue@[k] == t;
                        assert(self.queue@[k] == t);
                    }
                } else {
                    assert(self.queue@[self.queue@.len() - 1] == id);
                }
            }
            assert forall|i: int, j: int|
                0 <= i < j < self.queue@.len() implies #[trigger] self.queue@[i]
                != #[trigger] self.queue@[j] by {
                if j == self.queue@.len() - 1 {
                    assert(old(self).queue@[i] == self.queue@[i]);
                }
            }
        }
        true
    }

    /// Decides the worker's next move: finish when no task is pending,
    /// otherwise take the front of the run queue to poll it, or park when
    /// the run queue is empty.
    fn next_step(&mut self) -> (step: RunStep)
        requires
            old(self).well_formed(),
        ensures
            final(self).well_formed(),
            final(self).tasks() == old(self).tasks(),
            final(self).pending_tasks() == old(self).pending_tasks(),
            (step is Finished) <==> old(self).pending_tasks() == 0,
            (step is Finished) <==> (forall|t: int|
                0 <= t < old(self).tasks() ==> old(self).is_finished(t)),
            (step is Park) <==> (old(self).pending_tasks() > 0 && old(self).run_queue().len()
                == 0),
            step matches RunStep::Poll(id) ==> id == old(self).run_queue()[0]
                && old(self).is_queued(id as int) && !final(self).is_queued(id as int),
            (step is Poll) ==> final(self).run_queue() == old(self).run_queue().drop_first(),
            !(step is Poll) ==> final(self).run_queue() == old(self).run_queue(),
            forall|t: int|
                0 <= t < old(self).tasks() ==> final(self).is_finished(t) == old(self).is_finished(t)
                    && (!(step matches RunStep::Poll(id) && id == t) ==> final(self).is_queued(t)
                    == old(self).is_queued(t)),
    {
        proof {
            self.lemma_all_finished();
        }
        if self.task_count == 0 {
            return RunStep::Finished;
        }
        match self.queue.pop_front() {
            Some(id) => {
                proof {
                    assert(old(self).queue@[0] == id);
                    assert(old(self).queue@.contains(id));
                }
                self.queued.set(id, false);
                proof {
                    assert forall|t: usize| t < self.queued@.len() implies (
                    #[trigger] self.queued@[t as int] <==> self.queue@.contains(t)) by {
                        if self.queue@.contains(t) {
                            let k = choose|k: int|
                                0 <= k < self.queue@.len() && self.queue@[k] == t;
                            assert(old(self).queue@[k + 1] == t);
                            assert(old(self).queue@[0] == id);
                        }
                        if t != id && old(self).queue@.contains(t) {
                            let k = choose|k: int|
                                0 <= k < old(self).queue@.len() && old(self).queue@[k] == t;
                            assert(k != 0);
                            assert(self.queue@[k - 1] == t);
                        }
                    }
                    assert forall|i: int, j: int|
                        0 <= i < j < self.queue@.len() implies #[trigger] self.queue@[i]
                        != #[trigger] self.queue@[j] by {
                        assert(self.queue@[i] == old(self).queue@[i + 1]);
                        assert(self.queue@[j] == old(self).queue@[j + 1]);
                    }
                    assert(self.queue@ =~= old(self).queue@.drop_first());
                }
                RunStep::Poll(id)
            },
            None => RunStep::Park,
        }
    }

    proof fn lemma_all_finished(self)
        requires
            self.well_formed(),
        ensures
            self.pending_tasks() == 0 <==> (forall|t: int|
                0 <= t < self.tasks() ==> self.is_finished(t)),
            self.pending_tasks() <= self.tasks(),
    {
        lemma_count_false_zero(self.finished@);
        if self.task_count == 0 {
            assert forall|t: int| 0 <= t < self.tasks() implies self.is_finished(t) by {
                assert(self.finished@[t]);
            }
        }
        if forall|t: int| 0 <= t < self.tasks() ==> self.is_finished(t) {
            assert forall|i: int| 0 <= i < self.finished@.len() implies #[trigger] self.finished@[i] by {
                assert(self.is_finished(i));
            }
        }
    }

    /// Records that task `id` has completed.
    fn complete(&mut self, id: usize)
        requires
            old(self).well_formed(),
            id < old(self).tasks(),
            !old(self).is_finished(id as int),
        ensures
            final(self).well_formed(),
            final(self).tasks() == old(self).tasks(),
            final(self).pending_tasks() + 1 == old(self).pending_tasks(),
            final(self).run_queue() == old(self).run_queue(),
            final(self).is_finished(id as int),
            forall|t: int|
                0 <= t < old(self).tasks() ==> final(self).is_queued(t) == old(self).is_queued(t)
                    && (t != id ==> final(self).is_finished(t) == old(self).is_finished(t)),
    {
        proof {
            lemma_count_false_set_true(self.finished@, id as int);
        }
        self.finished.set(id, true);
        self.task_count = self.task_count - 1;
    }
}

/// The scheduling state of a single-worker async runtime: a run queue of
/// task ids, for each task whether it is in the queue and whether it has
/// completed, and the number of tasks not yet completed.
pub struct Scheduler {
    state: SchedulerState,
}

impl Scheduler {
    #[verifier::type_invariant]
    closed spec fn state_is_consistent(self) -> bool {
        self.state.well_formed()
    }

    /// The number of tasks ever spawned; their ids are `0..tasks()`.
    pub closed spec fn tasks(self) -> nat {
        self.state.tasks()
    }

    /// The ids waiting to be polled, in the order they will be polled.
    pub closed spec fn run_queue(self) -> Seq<usize> {
        self.state.run_queue()
    }

    /// Whether task `id` is waiting in the run queue.
    pub closed spec fn is_queued(self, id: int) -> bool {
        self.state.is_queued(id)
    }

    /// Whether task `id` has completed.
    pub closed spec fn is_finished(self, id: int) -> bool {
        self.state.is_finished(id)
    }

    /// The number of tasks that have not completed.
    pub closed spec fn pending_tasks(self) -> nat {
        self.state.pending_tasks()
    }

    /// What holds of every scheduler at every moment: no task stands twice
    /// in the run queue, a task is marked queued exactly when it is in the
    /// run queue, and no task is pending exactly when every task completed.
    pub open spec fn consistent(self) -> bool {
        &&& forall|i: int, j: int|
            0 <= i < j < self.run_queue().len() ==> self.run_queue()[i] != self.run_queue()[j]
        &&& forall|i: int|
            0 <= i < self.run_queue().len() ==> #[trigger] self.run_queue()[i] < self.tasks()
        &&& forall|t: usize|
            t < self.tasks() ==> (self.is_queued(t as int) <==> self.run_queue().contains(t))
        &&& self.pending_tasks() <= self.tasks()
        &&& (self.pending_tasks() == 0 <==> (forall|t: int|
            0 <= t < self.tasks() ==> self.is_finished(t)))
    }

    proof fn lemma_consistent(self)
        requires
            self.state.well_formed(),
        ensures
            self.consistent(),
    {
        self.state.lemma_all_finished();
        assert forall|t: usize| t < self.tasks() implies (self.is_queued(t as int)
            <==> self.run_queue().contains(t)) by {
            assert(self.state.queued@[t as int] <==> self.state.queue@.contains(t));
        }
        assert forall|i: int, j: int| 0 <= i < j < self.run_queue().len() implies self.run_queue()[i]
            != self.run_queue()[j] by {
            assert(self.state.queue@[i] != self.state.queue@[j]);
        }
        assert forall|i: int| 0 <= i < self.run_queue().len() implies #[trigger] self.run_queue()[i]
            < self.tasks() by {
            assert(self.state.queue@[i] < self.state.queued@.len());
        }
        if self.pending_tasks() == 0 {
            assert forall|t: int| 0 <= t < self.tasks() implies self.is_finished(t) by {
                assert(self.state.is_finished(t));
            }
        }
        if forall|t: int| 0 <= t < self.tasks() ==> self.is_finished(t) {
            assert forall|t: int| 0 <= t < self.state.tasks() implies self.state.is_finished(t) by {
                assert(self.is_finished(t));
            }
        }
    }

    /// A scheduler with no tasks.
    pub fn new() -> (s: Self)
        ensures
            s.consistent(),
            s.tasks() == 0,
            s.pending_tasks() == 0,
            s.run_queue() == Seq::<usize>::empty(),
    {
        let s = Scheduler { state: SchedulerState::new() };
        proof {
            s.lemma_consistent();
        }
        s
    }

    /// Registers a new task, already in the run queue, and returns its id.
    pub fn spawn(&mut self) -> (id: usize)
        requires
            old(self).tasks() < usize::MAX,
        ensures
            final(self).consistent(),
            id == old(self).tasks(),
            final(self).tasks() == old(self).tasks() + 1,
            final(self).pending_tasks() == old(self).pending_tasks() + 1,
            final(self).run_queue() == old(self).run_queue().push(id),
            final(self).is_queued(id as int),
            !final(self).is_finished(id as int),
            forall|t: int|
                0 <= t < old(self).tasks() ==> final(self).is_queued(t) == old(self).is_queued(t)
                    && final(self).is_finished(t) == old(self).is_finished(t),
    {
        proof {
            use_type_invariant(&*self);
        }
        let mut st = SchedulerState::new();
        std::mem::swap(&mut self.state, &mut st);
        let id = st.spawn();
        self.state = st;
        proof {
            self.lemma_consistent();
        }
        id
    }

    /// Puts task `id` back into the run queue unless it is already there.
    /// Returns whether it was added, that is, whether the worker is to be
    /// woken.
    pub fn schedule(&mut self, id: usize) -> (added: bool)
        requires
            id < old(self).tasks(),
        ensures
            final(self).consistent(),
            added == !old(self).is_queued(id as int),
            final(self).run_queue() == (if added {
                old(self).run_queue().push(id)
            } else {
                old(self).run_queue()
            }),
            final(self).is_queued(id as int),
            final(self).tasks() == old(self).tasks(),
            final(self).pending_tasks() == old(self).pending_tasks(),
            forall|t: int|
                0 <= t < old(self).tasks() ==> final(self).is_finished(t) == old(self).is_finished(t)
                    && (t != id ==> final(self).is_queued(t) == old(self).is_queued(t)),
    {
        proof {
            use_type_invariant(&*self);
        }
        let mut st = SchedulerState::new();
        std::mem::swap(&mut self.state, &mut st);
        let added = st.schedule(id);
        self.state = st;
        proof {
            self.lemma_consistent();
        }
        added
    }

    /// Decides the worker's next move: finish when no task is pending,
    /// otherwise take the front of the run queue to poll it, or park when
    /// the run queue is empty.
    pub fn next_step(&mut self) -> (step: RunStep)
        ensures
            final(self).consistent(),
            final(self).tasks() == old(self).tasks(),
            final(self).pending_tasks() == old(self).pending_tasks(),
            (step is Finished) <==> old(self).pending_tasks() == 0,
            (step is Finished) <==> (forall|t: int|
                0 <= t < old(self).tasks() ==> old(self).is_finished(t)),
            (step is Park) <==> (old(self).pending_tasks() > 0 && old(self).run_queue().len()
                == 0),
            step matches RunStep::Poll(id) ==> id == old(self).run_queue()[0]
                && old(self).is_queued(id as int) && !final(self).is_queued(id as int),
            (step is Poll) ==> final(self).run_queue() == old(self).run_queue().drop_first(),
            !(step is Poll) ==> final(self).run_queue() == old(self).run_queue(),
            forall|t: int|
                0 <= t < old(self).tasks() ==> final(self).is_finished(t) == old(self).is_finished(t)
                    && (!(step matches RunStep::Poll(id) && id == t) ==> final(self).is_queued(t)
                    == old(self).is_queued(t)),
    {
        proof {
            use_type_invariant(&*self);
            self.lemma_consistent();
        }
        let mut st = SchedulerState::new();
        std::mem::swap(&mut self.state, &mut st);
        let step = st.next_step();
        self.state = st;
        proof {
            self.lemma_consistent();
        }
        step
    }

    /// Records that task `id` has completed.
    pub fn complete(&mut self, id: usize)
        requires
            id < old(self).tasks(),
            !old(self).is_finished(id as int),
        ensures
            final(self).consistent(),
            final(self).tasks() == old(self).tasks(),
            final(self).pending_tasks() + 1 == old(self).pending_tasks(),
            final(self).run_queue() == old(self).run_queue(),
            final(self).is_finished(id as int),
            forall|t: int|
                0 <= t < old(self).tasks() ==> final(self).is_queued(t) == old(self).is_queued(t)
                    && (t != id ==> final(self).is_finished(t) == old(self).is_finished(t)),
    {
        proof {
            use_type_invariant(&*self);
        }
        let mut st = SchedulerState::new();
        std::mem::swap(&mut self.state, &mut st);
        st.complete(id);
        self.state = st;
        proof {
            self.lemma_consistent();
        }
    }
}

} // verus!

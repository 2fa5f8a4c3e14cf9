use std::collections::VecDeque;
use vstd::prelude::*;

verus! {

/// What a consumer is to do after asking the queue for work.
pub enum PopStep<T> {
    /// The front value, now taken out of the queue.
    Item(T),
    /// The queue is empty and stopped: no value will ever come.
    Stopped,
    /// The queue is empty but not stopped: wait for a push or a stop.
    Wait,
}

/// A first-in first-out work queue that producers can stop; once stopped
/// it takes no new values but still hands out the ones it holds.
pub struct Queue<T> {
    data: VecDeque<T>,
    stopped: bool,
}

impl<T> Queue<T> {
    /// The queued values, front first.
    pub closed spec fn items(self) -> Seq<T> {
        self.data@
    }

    /// Whether the queue has been stopped.
    pub closed spec fn is_stopped(self) -> bool {
        self.stopped
    }

    /// An empty, running queue.
    pub fn new() -> (q: Self)
        ensures
            q.items() == Seq::<T>::empty(),
            !q.is_stopped(),
    {
        Queue { data: VecDeque::new(), stopped: false }
    }

    /// Stops the queue for good; the queued values stay.
    pub fn stop(&mut self)
        ensures
            final(self).is_stopped(),
            final(self).items() == old(self).items(),
    {
        self.stopped = true;
    }

    /// Appends `data` at the back unless the queue is stopped, in which case
    /// the value is dropped. Returns whether the value was queued, that is,
    /// whether a waiting consumer is to be woken.
    pub fn push(&mut self, data: T) -> (queued: bool)
        ensures
            queued == !old(self).is_stopped(),
            final(self).is_stopped() == old(self).is_stopped(),
            final(self).items() == (if old(self).is_stopped() {
                old(self).items()
            } else {
                old(self).items().push(data)
            }),
    {
        if self.stopped {
            return false;
        }
        self.data.push_back(data);
        true
    }

    /// Takes the front value when there is one, even after a stop; reports
    /// `Stopped` when the queue is empty and stopped, and `Wait` when it is
    /// empty and still running.
    pub fn pop(&mut self) -> (step: PopStep<T>)
        ensures
            final(self).is_stopped() == old(self).is_stopped(),
            old(self).items().len() > 0 ==> step == PopStep::Item(old(self).items()[0])
                && final(self).items() == old(self).items().drop_first(),
            old(self).items().len() == 0 ==> final(self).items() == old(self).items() && step == (
            if old(self).is_stopped() {
                PopStep::<T>::Stopped
            } else {
                PopStep::<T>::Wait
            }),
    {
        match self.data.pop_front() {
            Some(value) => {
                proof {
                    assert(self.data@ =~= old(self).items().drop_first());
                }
                PopStep::Item(value)
            },
            None => {
                if self.stopped {
                    PopStep::Stopped
                } else {
                    PopStep::Wait
                }
            },
        }
    }
}

} // verus!

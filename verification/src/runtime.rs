//! The executor: its queues, the two sweeps and one turn of the driving
//! loop.

use crate::computation::Computation;
use crate::handle::{does_nothing, Event, Trace};
use crate::poll::Poll;
use crate::task::{swept, Task};
use crate::timer::{due_count, fired, Timer};
use std::collections::VecDeque;
use std::task::Waker;
use vstd::prelude::*;

verus! {

/// The executor as contracts see it.
pub struct RuntimeState<C> {
    /// The queued tasks, oldest first.
    pub tasks: Seq<Task<C>>,
    /// The queued timers, in arrival order.
    pub timers: Seq<Timer>,
    /// What the executor has done so far, oldest first: the handles it
    /// invoked and the polls it made.
    pub events: Seq<Event>,
}

impl<C: Computation> RuntimeState<C> {
    /// Every queued task has its handle attached.
    pub open spec fn wf(self) -> bool {
        forall|i: int| 0 <= i < self.tasks.len() ==> (#[trigger] self.tasks[i]).waker is Some
    }

    /// Whether nothing is queued.
    pub open spec fn idle(self) -> bool {
        self.tasks.len() == 0 && self.timers.len() == 0
    }

    /// The state with `events` added to the record and nothing else changed.
    pub open spec fn noting(self, events: Seq<Event>) -> Self {
        RuntimeState { tasks: self.tasks, timers: self.timers, events: self.events + events }
    }

    /// The state after a timer sweep at `now`: the due timers at the front
    /// of the queue are gone and their handles have been invoked, in queue
    /// order.
    pub open spec fn timer_sweep(self, now: u64) -> Self {
        let due = due_count(self.timers, now) as int;
        RuntimeState {
            tasks: self.tasks,
            timers: self.timers.skip(due),
            events: self.events + fired(self.timers.take(due)),
        }
    }

    /// Whether a task sweep at `now` may leave `after`: every task polled
    /// once, in queue order and after all that was done before, the timers
    /// untouched.
    pub open spec fn task_sweep(self, now: u64, after: Self) -> bool {
        &&& after.timers == self.timers
        &&& after.events.len() >= self.events.len()
        &&& after.events.take(self.events.len() as int) == self.events
        &&& swept(self.tasks, now, after.tasks, after.events.skip(self.events.len() as int))
    }

    /// Whether both sweeps of one turn at `now` may leave `after`: timers
    /// first, then tasks.
    pub open spec fn sweep(self, now: u64, after: Self) -> bool {
        self.timer_sweep(now).task_sweep(now, after)
    }

    /// Whether one turn of the driving loop at `now` may take the executor to
    /// `after` and the root computation from `root` to `root_after`, and end
    /// as `turn` says. The turn begins with `poll`, one poll of the root. A
    /// root that reports ready ends the turn at once, with no sweep; one that
    /// reports pending is followed by both sweeps.
    pub open spec fn turn<R: Computation>(
        self,
        root: R,
        handle: Waker,
        now: u64,
        poll: Event,
        after: Self,
        root_after: R,
        turn: Turn<R::Output>,
    ) -> bool {
        &&& poll matches Event::Polled { handle: given, wakes }
        &&& given == handle
        &&& root.steps(now, handle, root_after, turn.outcome(), wakes)
        &&& match turn {
            Turn::Done(_) => after == self.noting(seq![poll]),
            Turn::Suspended { idle } => self.noting(seq![poll]).sweep(now, after) && idle
                == after.idle(),
        }
    }
}

/// How one turn of the driving loop ended.
#[derive(Debug, PartialEq, Eq)]
pub enum Turn<T> {
    /// The root computation finished with this output.
    Done(T),
    /// The root computation is unfinished and both sweeps have run. `idle`
    /// says that nothing is queued any more, so that the caller may give up
    /// its time slice before the next turn.
    Suspended { idle: bool },
}

impl<T> Turn<T> {
    /// What the root computation reported in this turn.
    pub open spec fn outcome(self) -> Poll<T> {
        match self {
            Turn::Done(output) => Poll::Ready(output),
            Turn::Suspended { .. } => Poll::Pending,
        }
    }
}

/// The executor: a queue of tasks and a queue of timers, both in arrival
/// order.
pub struct MiniRuntime<C> {
    tasks: VecDeque<Task<C>>,
    timers: VecDeque<Timer>,
    trace: Trace,
}

impl<C> View for MiniRuntime<C> {
    type V = RuntimeState<C>;

    closed spec fn view(&self) -> RuntimeState<C> {
        RuntimeState { tasks: self.tasks@, timers: self.timers@, events: self.trace@ }
    }
}

impl<C: Computation> MiniRuntime<C> {
    /// An executor with nothing queued that has done nothing yet.
    pub fn new() -> (rt: Self)
        ensures
            rt@.wf(),
            rt@.tasks == Seq::<Task<C>>::empty(),
            rt@.timers == Seq::<Timer>::empty(),
            rt@.events == Seq::<Event>::empty(),
    {
        MiniRuntime { tasks: VecDeque::new(), timers: VecDeque::new(), trace: Trace::new() }
    }

    /// Puts a computation at the end of the task queue, with the handle
    /// that wakes it.
    pub fn enqueue_task(&mut self, future: C, waker: Waker)
        requires
            old(self)@.wf(),
        ensures
            final(self)@.wf(),
            final(self)@ == (RuntimeState {
                tasks: old(self)@.tasks.push(Task { future, waker: Some(waker) }),
                ..old(self)@
            }),
    {
        self.tasks.push_back(Task { future, waker: Some(waker) });
    }

    /// Puts a timer at the end of the timer queue, whatever its deadline.
    pub fn enqueue_timer(&mut self, deadline: u64, waker: Waker)
        requires
            old(self)@.wf(),
        ensures
            final(self)@.wf(),
            final(self)@ == (RuntimeState {
                timers: old(self)@.timers.push(Timer { deadline, waker }),
                ..old(self)@
            }),
    {
        self.timers.push_back(Timer { deadline, waker });
    }

    /// The number of queued tasks.
    pub fn task_count(&self) -> (n: usize)
        ensures
            n == self@.tasks.len(),
    {
        self.tasks.len()
    }

    /// The number of queued timers.
    pub fn timer_count(&self) -> (n: usize)
        ensures
            n == self@.timers.len(),
    {
        self.timers.len()
    }

    /// The handle with which the driving loop polls the root computation:
    /// one that does nothing when invoked, since the loop polls the root
    /// again on every turn anyway.
    pub fn create_waker(&self) -> (handle: &'static Waker)
        ensures
            does_nothing(*handle),
    {
        Waker::noop()
    }

    /// One turn of the driving loop at time `now`: polls the root
    /// computation with `handle`. If the root finished, its output is handed
    /// back and no sweep runs. Otherwise the timers are swept, then the
    /// tasks.
    pub fn turn<R: Computation>(&mut self, root: &mut R, handle: &Waker, now: u64) -> (turn: Turn<
        R::Output,
    >)
        requires
            old(self)@.wf(),
        ensures
            final(self)@.wf(),
            final(self)@.events.len() > old(self)@.events.len(),
            old(self)@.turn(
                *old(root),
                *handle,
                now,
                final(self)@.events[old(self)@.events.len() as int],
                final(self)@,
                *final(root),
                turn,
            ),
    {
        let ghost before = self@;
        let outcome = self.trace.poll(root, now, handle);
        let ghost poll = self.trace@.last();
        assert(self@ == before.noting(seq![poll])) by {
            assert(self.trace@ =~= before.events + seq![poll]);
        }
        match outcome {
            Poll::Ready(output) => Turn::Done(output),
            Poll::Pending => {
                self.process_timers(now);
                let ghost timed = self@;
                self.process_tasks(now);
                assert(self@.events[before.events.len() as int] == poll) by {
                    assert(self@.events.take(timed.events.len() as int)[before.events.len() as int]
                        == poll);
                }
                Turn::Suspended { idle: self.tasks.len() == 0 && self.timers.len() == 0 }
            },
        }
    }

    /// Wakes the timers at the front of the queue whose deadline has passed,
    /// in queue order, and removes them. The sweep stops at the first timer
    /// that is not due: a timer behind it stays queued even if its own
    /// deadline has passed.
    pub fn process_timers(&mut self, now: u64)
        requires
            old(self)@.wf(),
        ensures
            final(self)@.wf(),
            final(self)@ == old(self)@.timer_sweep(now),
    {
        let ghost before = self.timers@;
        let ghost mut k: int = 0;
        loop
            invariant
                self@.wf(),
                self@.tasks == old(self)@.tasks,
                before == old(self)@.timers,
                0 <= k <= before.len(),
                self.timers@ == before.skip(k),
                self.trace@ == old(self)@.events + fired(before.take(k)),
                due_count(before, now) == k + due_count(self.timers@, now),
            ensures
                due_count(before, now) == k,
            decreases self.timers@.len(),
        {
            if self.timers.len() == 0 {
                break ;
            }
            if self.timers[0].deadline > now {
                break ;
            }
            let timer = self.timers.pop_front().unwrap();
            self.trace.fire(timer.waker);
            proof {
                k = k + 1;
            }
        }
    }

    /// Polls every queued task once, in queue order. A task that is still
    /// unfinished goes back to the end of the queue with its handle; a
    /// finished one is dropped with what it produced.
    pub fn process_tasks(&mut self, now: u64)
        requires
            old(self)@.wf(),
        ensures
            final(self)@.wf(),
            old(self)@.task_sweep(now, final(self)@),
    {
        let ghost before = self.tasks@;
        let ghost done = self.trace@;
        let mut batch: VecDeque<Task<C>> = VecDeque::new();
        std::mem::swap(&mut self.tasks, &mut batch);
        let ghost mut i: int = 0;
        while batch.len() > 0
            invariant
                before == old(self)@.tasks,
                done == old(self)@.events,
                old(self)@.wf(),
                self@.wf(),
                self@.timers == old(self)@.timers,
                0 <= i <= before.len(),
                batch@ == before.skip(i),
                self.trace@.len() == done.len() + i,
                self.trace@.take(done.len() as int) == done,
                swept(before.take(i), now, self.tasks@, self.trace@.skip(done.len() as int)),
            decreases batch@.len(),
        {
            let mut task = batch.pop_front().unwrap();
            let waker = task.waker.take().unwrap();
            let ghost queued = self.tasks@;
            let ghost noted = self.trace@;
            let outcome = self.trace.poll(&mut task.future, now, &waker);
            match outcome {
                Poll::Pending => {
                    task.waker = Some(waker);
                    self.tasks.push_back(task);
                    assert(self.tasks@.drop_last() =~= queued);
                },
                Poll::Ready(output) => {
                    assert(before[i].future.steps(
                        now,
                        waker,
                        task.future,
                        Poll::Ready(output),
                        self.trace@.last()->wakes,
                    ));
                },
            }
            proof {
                let polls = self.trace@.skip(done.len() as int);
                assert(polls.drop_last() =~= noted.skip(done.len() as int));
                assert(before.take(i + 1).drop_last() =~= before.take(i));
                i = i + 1;
            }
        }
        assert(before.take(i) =~= before);
    }
}

} // verus!

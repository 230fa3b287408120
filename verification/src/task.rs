//! Task records and what a sweep leaves of them.

use crate::computation::Computation;
use crate::handle::Event;
use crate::poll::Poll;
use std::task::Waker;
use vstd::prelude::*;

verus! {

/// A queued computation together with the handle from its last poll.
pub struct Task<C> {
    /// The computation; what it produces is discarded.
    pub future: C,
    /// The handle: detached while the task is polled, present whenever the
    /// task sits in the queue.
    pub waker: Option<Waker>,
}

/// Whether `poll` records one poll of `task` at `now`, with the task's own
/// handle, that leaves `left` of it: the task with its handle back in place
/// and its computation one unfinished step further, or nothing where the
/// computation finished.
pub open spec fn polled_once<C: Computation>(
    task: Task<C>,
    now: u64,
    left: Option<Task<C>>,
    poll: Event,
) -> bool {
    &&& poll matches Event::Polled { handle, wakes }
    &&& task.waker == Some(handle)
    &&& match left {
        Some(kept) => kept.waker == task.waker && task.future.steps(
            now,
            handle,
            kept.future,
            Poll::Pending,
            wakes,
        ),
        None => exists|next: C, output: C::Output| #[trigger]
            task.future.steps(now, handle, next, Poll::Ready(output), wakes),
    }
}

/// Whether a sweep at `now` may turn the queue `before` into `after` and
/// leave `polls` in the record: the sweep polls every task once, in queue
/// order, so that `polls[i]` is the poll of `before[i]`, and the unfinished
/// tasks stand in `after` in the order in which they stood in `before`.
pub open spec fn swept<C: Computation>(
    before: Seq<Task<C>>,
    now: u64,
    after: Seq<Task<C>>,
    polls: Seq<Event>,
) -> bool
    decreases before.len(),
{
    if before.len() == 0 {
        after.len() == 0 && polls.len() == 0
    } else {
        &&& polls.len() > 0
        &&& {
            ||| polled_once(before.last(), now, None, polls.last()) && swept(
                before.drop_last(),
                now,
                after,
                polls.drop_last(),
            )
            ||| after.len() > 0 && polled_once(
                before.last(),
                now,
                Some(after.last()),
                polls.last(),
            ) && swept(before.drop_last(), now, after.drop_last(), polls.drop_last())
        }
    }
}

} // verus!

//! Timer records and the rule by which a sweep takes them.

use crate::handle::Event;
use std::task::Waker;
use vstd::prelude::*;

verus! {

/// A deadline together with the resumption handle of whoever waits for it.
pub struct Timer {
    /// The time from which the timer may fire.
    pub deadline: u64,
    /// The handle of the one waiter.
    pub waker: Waker,
}

/// How many timers a sweep at `now` takes from the front of `timers`: the
/// length of the longest prefix in which every deadline has passed.
pub open spec fn due_count(timers: Seq<Timer>, now: u64) -> nat
    decreases timers.len(),
{
    if timers.len() > 0 && timers[0].deadline <= now {
        1 + due_count(timers.drop_first(), now)
    } else {
        0
    }
}

/// What firing `timers` one after the other leaves in the record: the
/// handle of each, in queue order.
pub open spec fn fired(timers: Seq<Timer>) -> Seq<Event> {
    timers.map_values(|timer: Timer| Event::Fired(timer.waker))
}

} // verus!

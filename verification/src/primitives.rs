//! The two suspension primitives: a delay and a single yield.

use crate::computation::Computation;
use crate::handle::Context;
use crate::poll::Poll;
use std::task::Waker;
use vstd::prelude::*;

verus! {

/// A suspendable unit that becomes ready once a delay has passed.
///
/// The delay is measured from the first poll, not from the call of `sleep`.
/// The unit registers nothing with the executor: every poll compares the time
/// it is given with the deadline.
#[derive(Clone, Copy, Debug, PartialEq, Eq)]
pub struct Sleep {
    /// The delay, in the unit of the times handed to `poll`.
    pub duration: u64,
    /// The time of the first poll, once there was one.
    pub armed_at: Option<u64>,
}

impl Sleep {
    /// The time from which the unit is ready, once the first poll has fixed
    /// it: the time of that poll plus the delay.
    pub open spec fn deadline(self) -> Option<int> {
        match self.armed_at {
            Some(start) => Some(start + self.duration),
            None => None,
        }
    }

    /// The time from which a poll at `now` counts the delay: the time of the
    /// first poll, which is `now` if there was none before.
    pub open spec fn start(self, now: u64) -> u64 {
        match self.armed_at {
            Some(start) => start,
            None => now,
        }
    }

    /// The unit after a poll at `now`: armed at the time of its first poll.
    pub open spec fn after(self, now: u64) -> Sleep {
        Sleep { duration: self.duration, armed_at: Some(self.start(now)) }
    }

    /// What a poll at `now` reports: ready from the deadline on.
    pub open spec fn outcome(self, now: u64) -> Poll<()> {
        if now >= self.start(now) + self.duration {
            Poll::Ready(())
        } else {
            Poll::Pending
        }
    }
}

/// A unit that is ready `duration` after the time of its first poll.
pub fn sleep(duration: u64) -> (unit: Sleep)
    ensures
        unit == (Sleep { duration, armed_at: None }),
{
    Sleep { duration, armed_at: None }
}

impl Computation for Sleep {
    type Output = ();

    open spec fn steps(
        &self,
        now: u64,
        handle: Waker,
        next: Sleep,
        outcome: Poll<()>,
        wakes: int,
    ) -> bool {
        next == self.after(now) && outcome == self.outcome(now) && wakes == 0
    }

    /// Arms the unit if this is its first poll, then compares the time with
    /// the deadline. The handle is never invoked.
    fn poll(&mut self, cx: &mut Context<'_>) -> (outcome: Poll<()>)
        ensures
            *final(cx) == *old(cx),
    {
        let now = cx.now();
        let start = match self.armed_at {
            Some(start) => start,
            None => {
                self.armed_at = Some(now);
                now
            },
        };
        if now >= start && now - start >= self.duration {
            Poll::Ready(())
        } else {
            Poll::Pending
        }
    }
}

/// A suspendable unit that is pending exactly once, then ready.
#[derive(Clone, Copy, Debug, PartialEq, Eq)]
pub struct YieldNow {
    /// Whether the unit has given control back already.
    pub yielded: bool,
}

impl YieldNow {
    /// The unit after a poll: it has yielded.
    pub open spec fn after(self) -> YieldNow {
        YieldNow { yielded: true }
    }

    /// What a poll reports: pending the first time, ready from then on.
    pub open spec fn outcome(self) -> Poll<()> {
        if self.yielded {
            Poll::Ready(())
        } else {
            Poll::Pending
        }
    }

    /// How often a poll invokes the handle: once the first time, never
    /// again.
    pub open spec fn wakes(self) -> int {
        if self.yielded {
            0
        } else {
            1
        }
    }
}

/// A unit that gives control back to the executor once.
pub fn yield_now() -> (unit: YieldNow)
    ensures
        unit == (YieldNow { yielded: false }),
{
    YieldNow { yielded: false }
}

impl Computation for YieldNow {
    type Output = ();

    open spec fn steps(
        &self,
        now: u64,
        handle: Waker,
        next: YieldNow,
        outcome: Poll<()>,
        wakes: int,
    ) -> bool {
        next == self.after() && outcome == self.outcome() && wakes == self.wakes()
    }

    /// The first poll notes that the unit has yielded, invokes the handle
    /// once so that the unit is polled again without waiting for anything
    /// else, and reports pending. Every later poll reports ready and leaves
    /// the handle alone.
    fn poll(&mut self, cx: &mut Context<'_>) -> (outcome: Poll<()>)
        ensures
            final(cx).time() == old(cx).time(),
            final(cx).handle() == old(cx).handle(),
            final(cx).wakes() == old(cx).wakes() + old(self).wakes(),
    {
        if self.yielded {
            Poll::Ready(())
        } else {
            self.yielded = true;
            cx.wake();
            Poll::Pending
        }
    }
}

} // verus!

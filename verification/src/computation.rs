//! Computations: what the executor polls.

use crate::handle::Context;
use crate::poll::Poll;
use std::task::Waker;
use vstd::prelude::*;

verus! {

/// A unit of work that can be asked repeatedly whether it is done.
///
/// A poll is a step: it takes the computation from one state to the next,
/// reports an outcome and invokes the handle it is given some number of
/// times. `steps` says which steps a computation may take; the executor is
/// proved for every computation, whatever steps it takes.
pub trait Computation: Sized {
    /// What the computation produces when it finishes.
    type Output;

    /// Whether a poll at time `now`, with `handle` as the handle to invoke,
    /// may take the computation from this state to `next`, report `outcome`
    /// and leave the handle invoked `wakes` times more than it was. A
    /// computation that does not say otherwise may take any step.
    open spec fn steps(
        &self,
        now: u64,
        handle: Waker,
        next: Self,
        outcome: Poll<Self::Output>,
        wakes: int,
    ) -> bool {
        true
    }

    /// Asks the computation once whether it is done. `cx` carries the time
    /// of the poll and the handle to invoke when the computation should be
    /// polled again.
    fn poll(&mut self, cx: &mut Context<'_>) -> (outcome: Poll<Self::Output>)
        ensures
            old(self).steps(
                old(cx).time(),
                *old(cx).handle(),
                *final(self),
                outcome,
                final(cx).wakes() - old(cx).wakes(),
            ),
    ;
}

/// Whether polling `c` at each of `times`, in order and always with
/// `handle`, may take it through `states`, report `outcomes` and invoke the
/// handle as `wakes` says: `states[i]` is the state before the poll at
/// `times[i]`, `outcomes[i]` is what that poll reports, and `wakes[i]` is how
/// often it invokes the handle.
pub open spec fn is_run<C: Computation>(
    c: C,
    handle: Waker,
    times: Seq<u64>,
    states: Seq<C>,
    outcomes: Seq<Poll<C::Output>>,
    wakes: Seq<int>,
) -> bool {
    &&& states.len() == times.len() + 1
    &&& outcomes.len() == times.len()
    &&& wakes.len() == times.len()
    &&& states[0] == c
    &&& forall|i: int|
        0 <= i < times.len() ==> states[i].steps(
            times[i],
            handle,
            states[i + 1],
            #[trigger] outcomes[i],
            wakes[i],
        )
}

} // verus!

//! What holds of every sweep, every turn and every run of the two
//! primitives.

use crate::computation::{is_run, Computation};
use crate::handle::Event;
use crate::poll::Poll;
use crate::primitives::{Sleep, YieldNow};
use crate::runtime::{RuntimeState, Turn};
use crate::task::{polled_once, swept, Task};
use crate::timer::{due_count, fired, Timer};
use std::task::Waker;
use vstd::prelude::*;

verus! {

/// A timer sweep takes exactly the longest prefix of due timers: every timer
/// it takes is due, and the first one it leaves, if any, is not.
pub proof fn lemma_due_count_is_longest_due_prefix(timers: Seq<Timer>, now: u64)
    ensures
        due_count(timers, now) <= timers.len(),
        forall|i: int| 0 <= i < due_count(timers, now) ==> (#[trigger] timers[i]).deadline <= now,
        due_count(timers, now) < timers.len() ==> timers[due_count(timers, now) as int].deadline
            > now,
    decreases timers.len(),
{
    if timers.len() > 0 && timers[0].deadline <= now {
        let rest = timers.drop_first();
        lemma_due_count_is_longest_due_prefix(rest, now);
        assert forall|i: int| 0 <= i < due_count(timers, now) implies (#[trigger] timers[i]).deadline
            <= now by {
            if i > 0 {
                assert(timers[i] == rest[i - 1]);
            }
        }
    }
}

/// Head-of-line blocking: a timer that is not yet due keeps every timer
/// queued behind it from firing, even one whose own deadline has passed. The
/// sweep fires only timers in front of the blocking one, in queue order, and
/// the timer behind it is still queued afterwards.
pub proof fn lemma_head_of_line_blocking<C: Computation>(
    state: RuntimeState<C>,
    now: u64,
    i: int,
    j: int,
)
    requires
        0 <= i < j < state.timers.len(),
        state.timers[i].deadline > now,
    ensures
        due_count(state.timers, now) <= i,
        state.timer_sweep(now).events == state.events + fired(
            state.timers.take(due_count(state.timers, now) as int),
        ),
        state.timer_sweep(now).timers[j - due_count(state.timers, now)] == state.timers[j],
{
    lemma_due_count_is_longest_due_prefix(state.timers, now);
}

/// Whether `origin` shows that `after` and `polls` came from `before` by
/// polling each task once, in queue order: `polls[j]` is the one poll of
/// `before[j]`, `origin[k]` is the place in `before` of the task that stands
/// at place `k` of `after`, the places rise, the task at each of them took one
/// unfinished step, and every other task of `before` finished in one step.
pub open spec fn is_single_pass<C: Computation>(
    before: Seq<Task<C>>,
    now: u64,
    after: Seq<Task<C>>,
    polls: Seq<Event>,
    origin: Seq<int>,
) -> bool {
    &&& polls.len() == before.len()
    &&& origin.len() == after.len()
    &&& forall|k: int| 0 <= k < origin.len() ==> 0 <= #[trigger] origin[k] < before.len()
    &&& forall|k: int, l: int|
        0 <= k < l < origin.len() ==> #[trigger] origin[k] < #[trigger] origin[l]
    &&& forall|k: int|
        0 <= k < origin.len() ==> polled_once(
            before[origin[k]],
            now,
            Some(#[trigger] after[k]),
            polls[origin[k]],
        )
    &&& forall|j: int|
        0 <= j < before.len() && !origin.contains(j) ==> polled_once(
            #[trigger] before[j],
            now,
            None,
            polls[j],
        )
}

/// A task sweep polls every task once and no task twice, in queue order: the
/// record holds one poll for each queued task, the poll of a task behind
/// those of the tasks in front of it. What the sweep leaves is accounted for
/// by these polls, and the tasks that go back into the queue keep the order
/// in which they stood. A task that went back is not polled again by the same
/// sweep.
pub proof fn lemma_sweep_polls_each_task_once<C: Computation>(
    before: Seq<Task<C>>,
    now: u64,
    after: Seq<Task<C>>,
    polls: Seq<Event>,
) -> (origin: Seq<int>)
    requires
        swept(before, now, after, polls),
    ensures
        after.len() <= before.len(),
        is_single_pass(before, now, after, polls, origin),
    decreases before.len(),
{
    if before.len() == 0 {
        Seq::empty()
    } else if polled_once(before.last(), now, None, polls.last()) && swept(
        before.drop_last(),
        now,
        after,
        polls.drop_last(),
    ) {
        let origin = lemma_sweep_polls_each_task_once(
            before.drop_last(),
            now,
            after,
            polls.drop_last(),
        );
        assert forall|j: int| 0 <= j < before.len() && !origin.contains(j) implies polled_once(
            #[trigger] before[j],
            now,
            None,
            polls[j],
        ) by {
            if j < before.len() - 1 {
                assert(before[j] == before.drop_last()[j]);
            }
        }
        origin
    } else {
        let rest = lemma_sweep_polls_each_task_once(
            before.drop_last(),
            now,
            after.drop_last(),
            polls.drop_last(),
        );
        let origin = rest.push(before.len() - 1);
        assert forall|k: int| 0 <= k < origin.len() implies polled_once(
            before[origin[k]],
            now,
            Some(#[trigger] after[k]),
            polls[origin[k]],
        ) by {
            if k < rest.len() {
                assert(after[k] == after.drop_last()[k]);
            }
        }
        assert forall|j: int| 0 <= j < before.len() && !origin.contains(j) implies polled_once(
            #[trigger] before[j],
            now,
            None,
            polls[j],
        ) by {
            if j < before.len() - 1 {
                if rest.contains(j) {
                    let k = choose|k: int| 0 <= k < rest.len() && rest[k] == j;
                    assert(origin[k] == j);
                }
                assert(before[j] == before.drop_last()[j]);
            }
        }
        origin
    }
}

/// A fresh yielding unit is pending exactly once and invokes its handle
/// exactly once: however often and whenever it is polled, the first poll
/// reports pending and invokes the handle once, and every later poll reports
/// ready and leaves the handle alone.
pub proof fn lemma_yield_now_is_pending_exactly_once(
    handle: Waker,
    times: Seq<u64>,
    states: Seq<YieldNow>,
    outcomes: Seq<Poll<()>>,
    wakes: Seq<int>,
)
    requires
        is_run(YieldNow { yielded: false }, handle, times, states, outcomes, wakes),
    ensures
        forall|i: int|
            0 <= i < times.len() ==> #[trigger] outcomes[i] == if i == 0 {
                Poll::<()>::Pending
            } else {
                Poll::Ready(())
            },
        forall|i: int|
            0 <= i < times.len() ==> #[trigger] wakes[i] == if i == 0 {
                1int
            } else {
                0int
            },
{
    assert forall|i: int| 0 <= i < times.len() implies #[trigger] outcomes[i] == if i == 0 {
        Poll::<()>::Pending
    } else {
        Poll::Ready(())
    } by {
        if i > 0 {
            assert(states[i - 1].steps(
                times[i - 1],
                handle,
                states[i],
                outcomes[i - 1],
                wakes[i - 1],
            ));
        }
    }
    assert forall|i: int| 0 <= i < times.len() implies #[trigger] wakes[i] == if i == 0 {
        1int
    } else {
        0int
    } by {
        assert(states[i].steps(times[i], handle, states[i + 1], outcomes[i], wakes[i]));
    }
}

/// The state of a sleeping unit before each poll of a run but the first:
/// armed at the time of the first poll, with its delay unchanged.
proof fn lemma_sleep_stays_armed(
    duration: u64,
    handle: Waker,
    times: Seq<u64>,
    states: Seq<Sleep>,
    outcomes: Seq<Poll<()>>,
    wakes: Seq<int>,
    i: int,
)
    requires
        is_run(Sleep { duration, armed_at: None }, handle, times, states, outcomes, wakes),
        0 < i <= times.len(),
    ensures
        states[i] == (Sleep { duration, armed_at: Some(times[0]) }),
    decreases i,
{
    assert(states[i - 1].steps(times[i - 1], handle, states[i], outcomes[i - 1], wakes[i - 1]));
    if i > 1 {
        lemma_sleep_stays_armed(duration, handle, times, states, outcomes, wakes, i - 1);
    }
}

/// A sleeping unit is ready exactly from its deadline on: the time of its
/// first poll plus the delay. No poll before that reports ready, and every
/// poll from then on does, so whoever polls the unit sees it finish at the
/// first poll that is not earlier than the deadline. No poll invokes the
/// handle.
pub proof fn lemma_sleep_is_ready_from_its_deadline(
    duration: u64,
    handle: Waker,
    times: Seq<u64>,
    states: Seq<Sleep>,
    outcomes: Seq<Poll<()>>,
    wakes: Seq<int>,
)
    requires
        is_run(Sleep { duration, armed_at: None }, handle, times, states, outcomes, wakes),
    ensures
        forall|i: int|
            0 <= i < times.len() ==> (#[trigger] outcomes[i] is Ready <==> times[i] >= times[0]
                + duration),
        forall|i: int|
            0 < i <= times.len() ==> (#[trigger] states[i]).deadline() == Some(
                times[0] + duration,
            ),
        forall|i: int| 0 <= i < times.len() ==> #[trigger] wakes[i] == 0,
{
    assert forall|i: int| 0 < i <= times.len() implies (#[trigger] states[i]).deadline() == Some(
        times[0] + duration,
    ) by {
        lemma_sleep_stays_armed(duration, handle, times, states, outcomes, wakes, i);
    }
    assert forall|i: int| 0 <= i < times.len() implies #[trigger] wakes[i] == 0 by {
        assert(states[i].steps(times[i], handle, states[i + 1], outcomes[i], wakes[i]));
    }
}

/// Two sleeps one after the other add up. When the second unit is first
/// polled no earlier than the poll at which the first one reported ready, its
/// deadline counts from that first poll of its own, and it reports ready no
/// earlier than the first poll of the first unit plus both delays.
pub proof fn lemma_sequential_sleeps_add_up(
    handle: Waker,
    first_delay: u64,
    first_times: Seq<u64>,
    first_states: Seq<Sleep>,
    first_outcomes: Seq<Poll<()>>,
    first_wakes: Seq<int>,
    second_delay: u64,
    second_times: Seq<u64>,
    second_states: Seq<Sleep>,
    second_outcomes: Seq<Poll<()>>,
    second_wakes: Seq<int>,
)
    requires
        is_run(
            Sleep { duration: first_delay, armed_at: None },
            handle,
            first_times,
            first_states,
            first_outcomes,
            first_wakes,
        ),
        is_run(
            Sleep { duration: second_delay, armed_at: None },
            handle,
            second_times,
            second_states,
            second_outcomes,
            second_wakes,
        ),
        first_times.len() > 0,
        second_times.len() > 0,
        first_outcomes.last() is Ready,
        second_outcomes.last() is Ready,
        second_times[0] >= first_times.last(),
    ensures
        second_states.last().deadline() == Some(second_times[0] + second_delay),
        second_times[0] + second_delay >= first_times[0] + first_delay + second_delay,
        second_times.last() >= first_times[0] + first_delay + second_delay,
{
    lemma_sleep_is_ready_from_its_deadline(
        first_delay,
        handle,
        first_times,
        first_states,
        first_outcomes,
        first_wakes,
    );
    lemma_sleep_is_ready_from_its_deadline(
        second_delay,
        handle,
        second_times,
        second_states,
        second_outcomes,
        second_wakes,
    );
}

/// A root computation that finishes without suspending is handed back by the
/// very turn that polls it, and that turn sweeps nothing: the queues are left
/// as they were, and all that the executor did is the one poll of the root.
pub proof fn lemma_ready_root_ends_the_turn_without_a_sweep<C: Computation, R: Computation>(
    state: RuntimeState<C>,
    root: R,
    handle: Waker,
    now: u64,
    poll: Event,
    after: RuntimeState<C>,
    root_after: R,
    turn: Turn<R::Output>,
)
    requires
        state.turn(root, handle, now, poll, after, root_after, turn),
        forall|next: R, outcome: Poll<R::Output>, wakes: int| #[trigger]
            root.steps(now, handle, next, outcome, wakes) ==> outcome is Ready,
    ensures
        turn is Done,
        after.tasks == state.tasks,
        after.timers == state.timers,
        after.events == state.events.push(poll),
{
}

/// How often the computation invoked its handle during the poll that `poll`
/// records.
pub open spec fn wakes_of(poll: Event) -> int {
    match poll {
        Event::Polled { wakes, .. } => wakes,
        Event::Fired(_) => 0,
    }
}

/// Whether driving `root` on the executor `state`, with one turn at each of
/// `times`, may take the executor through `states` and the root through
/// `roots`, the turns beginning with the polls `polls` and ending as `turns`
/// says.
pub open spec fn is_drive<C: Computation, R: Computation>(
    state: RuntimeState<C>,
    root: R,
    handle: Waker,
    times: Seq<u64>,
    polls: Seq<Event>,
    states: Seq<RuntimeState<C>>,
    roots: Seq<R>,
    turns: Seq<Turn<R::Output>>,
) -> bool {
    &&& states.len() == times.len() + 1
    &&& roots.len() == times.len() + 1
    &&& turns.len() == times.len()
    &&& polls.len() == times.len()
    &&& states[0] == state
    &&& roots[0] == root
    &&& forall|i: int|
        0 <= i < times.len() ==> states[i].turn(
            roots[i],
            handle,
            times[i],
            polls[i],
            states[i + 1],
            roots[i + 1],
            #[trigger] turns[i],
        )
}

/// The turns of a drive are a run of the root computation: what the root
/// reports does not depend on what is queued, and a turn is done exactly when
/// the root reported ready.
pub proof fn lemma_drive_is_a_run_of_the_root<C: Computation, R: Computation>(
    state: RuntimeState<C>,
    root: R,
    handle: Waker,
    times: Seq<u64>,
    polls: Seq<Event>,
    states: Seq<RuntimeState<C>>,
    roots: Seq<R>,
    turns: Seq<Turn<R::Output>>,
)
    requires
        is_drive(state, root, handle, times, polls, states, roots, turns),
    ensures
        is_run(
            root,
            handle,
            times,
            roots,
            turns.map_values(|turn: Turn<R::Output>| turn.outcome()),
            polls.map_values(|poll: Event| wakes_of(poll)),
        ),
{
}

/// A root that yields once costs the driver exactly one extra turn: the
/// first turn polls the root, which invokes the handle once, is suspended and
/// runs both sweeps; the second polls the root, is done and runs no sweep,
/// whatever is queued and whatever the times of the turns.
pub proof fn lemma_yielding_root_takes_two_turns<C: Computation>(
    state: RuntimeState<C>,
    handle: Waker,
    times: Seq<u64>,
    polls: Seq<Event>,
    states: Seq<RuntimeState<C>>,
    roots: Seq<YieldNow>,
    turns: Seq<Turn<()>>,
)
    requires
        is_drive(state, YieldNow { yielded: false }, handle, times, polls, states, roots, turns),
        times.len() >= 2,
    ensures
        turns[0] is Suspended,
        polls[0] == (Event::Polled { handle, wakes: 1 }),
        state.noting(seq![polls[0]]).sweep(times[0], states[1]),
        turns[1] == Turn::Done(()),
        polls[1] == (Event::Polled { handle, wakes: 0 }),
        states[2] == states[1].noting(seq![polls[1]]),
{
    let root = YieldNow { yielded: false };
    lemma_drive_is_a_run_of_the_root(state, root, handle, times, polls, states, roots, turns);
    let outcomes = turns.map_values(|turn: Turn<()>| turn.outcome());
    let wakes = polls.map_values(|poll: Event| wakes_of(poll));
    lemma_yield_now_is_pending_exactly_once(handle, times, roots, outcomes, wakes);
}

/// A root that sleeps is not handed back before its deadline, the time of
/// its first poll plus the delay, and is handed back by the first turn that
/// is not earlier than that.
pub proof fn lemma_sleeping_root_is_done_from_its_deadline<C: Computation>(
    state: RuntimeState<C>,
    duration: u64,
    handle: Waker,
    times: Seq<u64>,
    polls: Seq<Event>,
    states: Seq<RuntimeState<C>>,
    roots: Seq<Sleep>,
    turns: Seq<Turn<()>>,
)
    requires
        is_drive(
            state,
            Sleep { duration, armed_at: None },
            handle,
            times,
            polls,
            states,
            roots,
            turns,
        ),
    ensures
        forall|i: int|
            0 <= i < times.len() ==> (#[trigger] turns[i] is Done <==> times[i] >= times[0]
                + duration),
{
    let root = Sleep { duration, armed_at: None };
    lemma_drive_is_a_run_of_the_root(state, root, handle, times, polls, states, roots, turns);
    let outcomes = turns.map_values(|turn: Turn<()>| turn.outcome());
    let wakes = polls.map_values(|poll: Event| wakes_of(poll));
    lemma_sleep_is_ready_from_its_deadline(duration, handle, times, roots, outcomes, wakes);
}

} // verus!

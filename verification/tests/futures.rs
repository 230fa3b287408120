use minimal_async_runtime::{Computation, Context, MiniRuntime, Poll, Turn};
use std::cell::Cell;
use std::future::Future;
use std::pin::Pin;
use std::rc::Rc;
use std::task;
use std::task::Waker;

/// A clock that the test moves by hand.
#[derive(Clone)]
struct Clock(Rc<Cell<u64>>);

impl Clock {
    fn at(now: u64) -> Clock {
        Clock(Rc::new(Cell::new(now)))
    }

    fn now(&self) -> u64 {
        self.0.get()
    }

    fn advance(&self, by: u64) {
        self.0.set(self.0.get() + by);
    }
}

/// A future of the standard library as a computation of the executor.
struct Pinned<F>(Pin<Box<F>>);

impl<F: Future> Computation for Pinned<F> {
    type Output = F::Output;

    fn poll(&mut self, cx: &mut Context<'_>) -> Poll<F::Output> {
        let mut cx = task::Context::from_waker(cx.waker());
        match self.0.as_mut().poll(&mut cx) {
            task::Poll::Ready(output) => Poll::Ready(output),
            task::Poll::Pending => Poll::Pending,
        }
    }
}

/// A unit of the executor as a future of the standard library, on the
/// test's clock.
struct Unit<C> {
    unit: C,
    clock: Clock,
}

impl<C: Computation + Unpin> Future for Unit<C> {
    type Output = C::Output;

    fn poll(mut self: Pin<&mut Self>, cx: &mut task::Context<'_>) -> task::Poll<C::Output> {
        let mut cx = Context::new(self.clock.now(), cx.waker());
        match self.unit.poll(&mut cx) {
            Poll::Ready(output) => task::Poll::Ready(output),
            Poll::Pending => task::Poll::Pending,
        }
    }
}

async fn sleep(duration: u64, clock: &Clock) {
    Unit { unit: minimal_async_runtime::sleep(duration), clock: clock.clone() }.await
}

async fn yield_now(clock: &Clock) {
    Unit { unit: minimal_async_runtime::yield_now(), clock: clock.clone() }.await
}

/// Drives `future` to its end, moving the clock by `tick` after every turn
/// that leaves it unfinished. Hands back the output and the number of turns.
fn drive<F: Future>(
    rt: &mut MiniRuntime<Pinned<Pin<Box<dyn Future<Output = ()>>>>>,
    future: F,
    clock: &Clock,
    tick: u64,
) -> (F::Output, u32) {
    let mut root = Pinned(Box::pin(future));
    let handle = rt.create_waker();
    let mut turns = 0;
    loop {
        turns += 1;
        match rt.turn(&mut root, handle, clock.now()) {
            Turn::Done(output) => return (output, turns),
            Turn::Suspended { .. } => clock.advance(tick),
        }
    }
}

fn queued(future: impl Future<Output = ()> + 'static) -> Pinned<Pin<Box<dyn Future<Output = ()>>>> {
    let boxed: Pin<Box<dyn Future<Output = ()>>> = Box::pin(future);
    Pinned(Box::pin(boxed))
}

#[test]
fn root_that_never_suspends_is_returned_by_the_first_turn() {
    let clock = Clock::at(0);
    let mut rt = MiniRuntime::new();
    let seen = Rc::new(Cell::new(0u32));
    let counter = seen.clone();
    rt.enqueue_task(queued(async move { counter.set(counter.get() + 1) }), Waker::noop().clone());
    rt.enqueue_timer(0, Waker::noop().clone());
    let (output, turns) = drive(&mut rt, async { 41 + 1 }, &clock, 1);
    assert_eq!(output, 42);
    assert_eq!(turns, 1);
    assert_eq!(clock.now(), 0);
    assert_eq!(seen.get(), 0);
    assert_eq!(rt.task_count(), 1);
    assert_eq!(rt.timer_count(), 1);
}

#[test]
fn root_behind_one_yield_takes_one_extra_turn() {
    let clock = Clock::at(0);
    let mut rt = MiniRuntime::new();
    let root_clock = clock.clone();
    let (output, turns) = drive(
        &mut rt,
        async move {
            yield_now(&root_clock).await;
            7
        },
        &clock,
        1,
    );
    assert_eq!(output, 7);
    assert_eq!(turns, 2);
}

#[test]
fn root_behind_three_yields_takes_three_extra_turns() {
    let clock = Clock::at(0);
    let mut rt = MiniRuntime::new();
    let root_clock = clock.clone();
    let (_, turns) = drive(
        &mut rt,
        async move {
            yield_now(&root_clock).await;
            yield_now(&root_clock).await;
            yield_now(&root_clock).await;
        },
        &clock,
        1,
    );
    assert_eq!(turns, 4);
}

#[test]
fn root_behind_a_sleep_is_not_returned_before_the_deadline() {
    let clock = Clock::at(1_000);
    let mut rt = MiniRuntime::new();
    let root_clock = clock.clone();
    let (_, turns) = drive(&mut rt, async move { sleep(250, &root_clock).await }, &clock, 100);
    assert_eq!(clock.now(), 1_300);
    assert_eq!(turns, 4);
}

#[test]
fn sleep_counts_from_the_first_poll_not_from_the_call() {
    let clock = Clock::at(0);
    let mut rt = MiniRuntime::new();
    let root_clock = clock.clone();
    let pending = sleep(10, &root_clock);
    clock.advance(1_000);
    let (_, turns) = drive(&mut rt, pending, &clock, 5);
    assert_eq!(clock.now(), 1_010);
    assert_eq!(turns, 3);
}

#[test]
fn one_second_then_two_seconds_take_three_seconds() {
    let second = 1_000_000_000u64;
    let clock = Clock::at(0);
    let mut rt = MiniRuntime::new();
    let root_clock = clock.clone();
    let marks = Rc::new(Cell::new((0u64, 0u64)));
    let notes = marks.clone();
    drive(
        &mut rt,
        async move {
            sleep(second, &root_clock).await;
            let first_done = root_clock.now();
            sleep(2 * second, &root_clock).await;
            notes.set((first_done, root_clock.now()));
        },
        &clock,
        second / 4,
    );
    assert_eq!(marks.get(), (second, 3 * second));
    assert!(clock.now() >= 3 * second);
}

#[test]
fn queued_futures_are_polled_once_per_turn_of_a_suspended_root() {
    let clock = Clock::at(0);
    let mut rt = MiniRuntime::new();
    let polls = Rc::new(Cell::new(0u32));
    let counter = polls.clone();
    let task_clock = clock.clone();
    rt.enqueue_task(
        queued(async move {
            loop {
                counter.set(counter.get() + 1);
                yield_now(&task_clock).await;
            }
        }),
        Waker::noop().clone(),
    );
    let root_clock = clock.clone();
    let (_, turns) = drive(&mut rt, async move { sleep(30, &root_clock).await }, &clock, 10);
    assert_eq!(turns, 4);
    assert_eq!(polls.get(), 3);
    assert_eq!(rt.task_count(), 1);
}

use minimal_async_runtime::{sleep, yield_now};
use minimal_async_runtime::{Computation, Context, Poll, Sleep, Trace, YieldNow};
use std::sync::{Arc, Mutex};
use std::task::{Wake, Waker};

/// A handle that counts how often it is invoked.
struct Counter(Mutex<usize>);

impl Counter {
    fn count(&self) -> usize {
        *self.0.lock().unwrap()
    }
}

impl Wake for Counter {
    fn wake(self: Arc<Self>) {
        *self.0.lock().unwrap() += 1;
    }
}

fn counter() -> (Arc<Counter>, Waker) {
    let counter = Arc::new(Counter(Mutex::new(0)));
    (counter.clone(), Waker::from(counter))
}

fn poll_at<C: Computation>(unit: &mut C, now: u64) -> Poll<C::Output> {
    let mut cx = Context::new(now, Waker::noop());
    unit.poll(&mut cx)
}

#[test]
fn context_hands_back_time_and_handle() {
    let (_, handle) = counter();
    let cx = Context::new(42, &handle);
    assert_eq!(cx.now(), 42);
    assert!(cx.waker().will_wake(&handle));
}

#[test]
fn context_wake_invokes_the_handle() {
    let (count, handle) = counter();
    let mut cx = Context::new(0, &handle);
    cx.wake();
    cx.wake();
    assert_eq!(count.count(), 2);
    assert_eq!(cx.now(), 0);
}

#[test]
fn yield_now_starts_unyielded() {
    assert_eq!(yield_now(), YieldNow { yielded: false });
}

#[test]
fn yield_now_is_pending_exactly_once() {
    let mut unit = yield_now();
    assert_eq!(poll_at(&mut unit, 0), Poll::Pending);
    assert_eq!(unit, YieldNow { yielded: true });
    assert_eq!(poll_at(&mut unit, 0), Poll::Ready(()));
    assert_eq!(poll_at(&mut unit, 0), Poll::Ready(()));
    assert_eq!(unit, YieldNow { yielded: true });
}

#[test]
fn yield_now_wakes_itself_on_the_first_poll_only() {
    let (count, handle) = counter();
    let mut unit = yield_now();
    let mut cx = Context::new(9, &handle);
    assert_eq!(unit.poll(&mut cx), Poll::Pending);
    assert_eq!(count.count(), 1);
    assert_eq!(unit.poll(&mut cx), Poll::Ready(()));
    assert_eq!(unit.poll(&mut cx), Poll::Ready(()));
    assert_eq!(count.count(), 1);
}

#[test]
fn sleep_is_not_armed_by_the_call() {
    assert_eq!(sleep(10), Sleep { duration: 10, armed_at: None });
}

#[test]
fn sleep_counts_from_its_first_poll() {
    let mut unit = sleep(10);
    assert_eq!(poll_at(&mut unit, 100), Poll::Pending);
    assert_eq!(unit, Sleep { duration: 10, armed_at: Some(100) });
    assert_eq!(poll_at(&mut unit, 109), Poll::Pending);
    assert_eq!(poll_at(&mut unit, 110), Poll::Ready(()));
    assert_eq!(poll_at(&mut unit, 111), Poll::Ready(()));
    assert_eq!(unit, Sleep { duration: 10, armed_at: Some(100) });
}

#[test]
fn sleep_of_no_time_is_ready_at_once() {
    let mut unit = sleep(0);
    assert_eq!(poll_at(&mut unit, 77), Poll::Ready(()));
    assert_eq!(unit, Sleep { duration: 0, armed_at: Some(77) });
}

#[test]
fn sleep_never_invokes_the_handle() {
    let (count, handle) = counter();
    let mut unit = sleep(3);
    let mut cx = Context::new(0, &handle);
    assert_eq!(unit.poll(&mut cx), Poll::Pending);
    let mut cx = Context::new(3, &handle);
    assert_eq!(unit.poll(&mut cx), Poll::Ready(()));
    assert_eq!(count.count(), 0);
}

#[test]
fn sleep_past_the_end_of_time_is_never_ready() {
    let mut unit = sleep(u64::MAX);
    assert_eq!(poll_at(&mut unit, 1), Poll::Pending);
    assert_eq!(poll_at(&mut unit, u64::MAX), Poll::Pending);
    let mut unit = sleep(u64::MAX);
    assert_eq!(poll_at(&mut unit, 0), Poll::Pending);
    assert_eq!(poll_at(&mut unit, u64::MAX - 1), Poll::Pending);
    assert_eq!(poll_at(&mut unit, u64::MAX), Poll::Ready(()));
}

#[test]
fn sleep_is_pending_while_the_clock_reads_earlier_than_the_first_poll() {
    let mut unit = sleep(5);
    assert_eq!(poll_at(&mut unit, 50), Poll::Pending);
    assert_eq!(poll_at(&mut unit, 10), Poll::Pending);
    assert_eq!(poll_at(&mut unit, 55), Poll::Ready(()));
}

#[test]
fn second_sleep_is_armed_only_when_it_is_first_polled() {
    let mut first = sleep(1_000);
    let mut second = sleep(2_000);
    assert_eq!(poll_at(&mut first, 0), Poll::Pending);
    assert_eq!(second.armed_at, None);
    assert_eq!(poll_at(&mut first, 1_000), Poll::Ready(()));
    assert_eq!(second.armed_at, None);
    assert_eq!(poll_at(&mut second, 1_000), Poll::Pending);
    assert_eq!(second.armed_at, Some(1_000));
    assert_eq!(poll_at(&mut second, 2_999), Poll::Pending);
    assert_eq!(poll_at(&mut second, 3_000), Poll::Ready(()));
}

#[test]
fn trace_fire_invokes_the_handle_once() {
    let (count, handle) = counter();
    let mut trace = Trace::new();
    trace.fire(handle);
    assert_eq!(count.count(), 1);
}

#[test]
fn trace_poll_polls_once_at_the_given_time() {
    let mut trace = Trace::new();
    let mut unit = sleep(5);
    assert_eq!(trace.poll(&mut unit, 100, Waker::noop()), Poll::Pending);
    assert_eq!(unit, Sleep { duration: 5, armed_at: Some(100) });
    assert_eq!(trace.poll(&mut unit, 105, Waker::noop()), Poll::Ready(()));
}

#[test]
fn trace_poll_hands_the_handle_to_the_computation() {
    let (count, handle) = counter();
    let mut trace = Trace::new();
    let mut unit = yield_now();
    assert_eq!(trace.poll(&mut unit, 0, &handle), Poll::Pending);
    assert_eq!(unit, YieldNow { yielded: true });
    assert_eq!(count.count(), 1);
    assert_eq!(trace.poll(&mut unit, 0, &handle), Poll::Ready(()));
    assert_eq!(count.count(), 1);
}

#[test]
fn yield_now_invokes_the_handle_once_over_its_life() {
    let (count, handle) = counter();
    let mut unit = yield_now();
    let mut polls = Vec::new();
    for now in 0..5 {
        let mut cx = Context::new(now, &handle);
        polls.push(unit.poll(&mut cx));
    }
    assert_eq!(
        polls,
        vec![Poll::Pending, Poll::Ready(()), Poll::Ready(()), Poll::Ready(()), Poll::Ready(())]
    );
    assert_eq!(count.count(), 1);
}

//! Resumption handles, the context in which a computation is polled, and
//! the record of what was done with both.

use crate::computation::Computation;
use crate::poll::Poll;
use std::task::Waker;
use vstd::prelude::*;

verus! {

/// The resumption handle of the standard library, `std::task::Waker`: a
/// token that tells whoever made it that a suspended computation may make
/// progress. Nothing inside it is visible here; the executor carries handles
/// and invokes them.
#[verifier::external_type_specification]
#[verifier::external_body]
pub struct ExWaker(Waker);

/// Whether `handle` is one that does nothing when it is invoked.
pub uninterp spec fn does_nothing(handle: Waker) -> bool;

/// `Waker::noop` hands out a handle that does nothing when invoked: that,
/// and no more, is claimed of it.
pub assume_specification[ Waker::noop ]() -> (waker: &'static Waker)
    ensures
        does_nothing(*waker),
;

/// `Waker::wake` invokes the handle and consumes it. Nothing is claimed of
/// it: what waking does lies with whoever made the handle.
#[verifier::external_body]
fn invoke(waker: Waker) {
    waker.wake()
}

/// `Waker::wake_by_ref` invokes the handle without consuming it. Nothing is
/// claimed of it.
#[verifier::external_body]
fn invoke_by_ref(waker: &Waker) {
    waker.wake_by_ref()
}

/// What a computation may consult while it is polled: the current time and
/// the resumption handle of whoever polls it. A computation invokes the
/// handle through the context, and the context counts how often.
pub struct Context<'a> {
    now: u64,
    waker: &'a Waker,
    wakes: Ghost<nat>,
}

impl<'a> Context<'a> {
    /// The time of the poll.
    pub closed spec fn time(&self) -> u64 {
        self.now
    }

    /// The handle of whoever polls.
    pub closed spec fn handle(&self) -> &'a Waker {
        self.waker
    }

    /// How often the handle has been invoked through this context.
    pub closed spec fn wakes(&self) -> nat {
        self.wakes@
    }

    /// The context of a poll at time `now` on behalf of the owner of `waker`.
    pub fn new(now: u64, waker: &'a Waker) -> (cx: Context<'a>)
        ensures
            cx.time() == now,
            cx.handle() == waker,
            cx.wakes() == 0,
    {
        Context { now, waker, wakes: Ghost(0) }
    }

    /// The time of the poll.
    pub fn now(&self) -> (now: u64)
        ensures
            now == self.time(),
    {
        self.now
    }

    /// The handle of whoever polls, to keep for later.
    pub fn waker(&self) -> (waker: &'a Waker)
        ensures
            waker == self.handle(),
    {
        self.waker
    }

    /// Invokes the handle once: the computation asks to be polled again.
    pub fn wake(&mut self)
        ensures
            final(self).time() == old(self).time(),
            final(self).handle() == old(self).handle(),
            final(self).wakes() == old(self).wakes() + 1,
    {
        invoke_by_ref(self.waker);
        self.wakes = Ghost(self.wakes@ + 1);
    }
}

/// One thing an executor did.
pub enum Event {
    /// It invoked the handle of a timer.
    Fired(Waker),
    /// It polled a computation once, giving it `handle`, and the computation
    /// invoked that handle `wakes` times during the poll.
    Polled { handle: Waker, wakes: int },
}

/// The record of what an executor did, oldest first. An entry is written by
/// the call that does what the entry says, and by nothing else.
pub struct Trace {
    events: Ghost<Seq<Event>>,
}

impl View for Trace {
    type V = Seq<Event>;

    closed spec fn view(&self) -> Seq<Event> {
        self.events@
    }
}

impl Trace {
    /// A record with nothing in it.
    pub fn new() -> (trace: Trace)
        ensures
            trace@ == Seq::<Event>::empty(),
    {
        Trace { events: Ghost(Seq::empty()) }
    }

    /// Invokes `waker`, the handle of a timer, and notes it.
    pub fn fire(&mut self, waker: Waker)
        ensures
            final(self)@ == old(self)@.push(Event::Fired(waker)),
    {
        let ghost handle = waker;
        invoke(waker);
        proof {
            self.events@ = self.events@.push(Event::Fired(handle));
        }
    }

    /// Polls `computation` once, at time `now` and with `handle` as the
    /// handle to invoke, and notes the poll with the number of times the
    /// computation invoked the handle.
    pub fn poll<C: Computation>(&mut self, computation: &mut C, now: u64, handle: &Waker) -> (outcome:
        Poll<C::Output>)
        ensures
            final(self)@.len() == old(self)@.len() + 1,
            final(self)@.drop_last() == old(self)@,
            final(self)@.last() matches Event::Polled { handle: given, wakes } && given == *handle
                && old(computation).steps(now, *handle, *final(computation), outcome, wakes),
    {
        let mut cx = Context::new(now, handle);
        let outcome = computation.poll(&mut cx);
        proof {
            self.events@ = self.events@.push(
                Event::Polled { handle: *handle, wakes: cx.wakes() as int },
            );
        }
        outcome
    }
}

} // verus!

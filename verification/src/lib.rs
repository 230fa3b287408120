//! A minimal single-threaded cooperative executor: the queues, the two sweeps
//! and one turn of the driving loop, together with the two suspension
//! primitives a computation uses to give control back.

pub mod computation;
pub mod handle;
pub mod laws;
pub mod poll;
pub mod primitives;
pub mod runtime;
pub mod task;
pub mod timer;

pub use computation::Computation;
pub use handle::{Context, Event, Trace};
pub use poll::Poll;
pub use primitives::{sleep, yield_now, Sleep, YieldNow};
pub use runtime::{MiniRuntime, RuntimeState, Turn};
pub use task::Task;
pub use timer::Timer;

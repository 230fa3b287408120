//! The answer of a poll.

use vstd::prelude::*;

verus! {

/// What a computation answers when asked whether it is done.
#[derive(Debug, PartialEq, Eq)]
pub enum Poll<T> {
    /// Finished, with its output.
    Ready(T),
    /// Not finished yet; ask again later.
    Pending,
}

} // verus!

//! The vocabulary in which operations that may have to wait are described.

use vstd::prelude::*;

verus! {

/// The identity of a task that can be woken.
///
/// The primitives of this crate never run a task themselves. They remember
/// which task waits for what and append the tasks that can make progress to
/// their list of wakes, from which an executor takes them.
#[derive(Clone, Copy, Debug, PartialEq, Eq, Structural)]
pub struct Waker {
    /// The number by which the executor finds the task again.
    pub task: u64,
}

/// Returns the wakes caused by notifying a task that may be registered.
pub open spec fn wakes_of(waker: Option<Waker>) -> Seq<Waker> {
    match waker {
        Some(waker) => seq![waker],
        None => Seq::empty(),
    }
}

/// The outcome of an operation that may have to wait.
#[derive(Debug, PartialEq, Eq)]
pub enum Poll<T> {
    /// The operation is complete.
    Ready(T),
    /// The operation has to be polled again once its task has been woken.
    Pending,
}

impl<T> Poll<T> {
    /// Returns `true` if the operation is complete.
    pub fn is_ready(&self) -> (result: bool)
        ensures
            result == (*self is Ready),
    {
        matches!(self, Poll::Ready(_))
    }

    /// Returns `true` if the operation has to be polled again.
    pub fn is_pending(&self) -> (result: bool)
        ensures
            result == (*self is Pending),
    {
        matches!(self, Poll::Pending)
    }
}

} // verus!

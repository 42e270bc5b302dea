//! Error types for fallible channel operations.

use crate::semaphore::TryAcquireError;
use vstd::prelude::*;
use vstd::std_specs::convert::{FromSpec, FromSpecImpl};

verus! {

/// An error which can occur when sending a value through a closed channel.
#[derive(Clone, Copy, Debug, PartialEq, Eq)]
pub struct SendError<T>(pub T);

impl<T> SendError<T> {
    /// Returns the description of the error.
    pub fn message(&self) -> (text: &'static str)
        ensures
            text@ == "failed to send value, channel closed"@,
    {
        "failed to send value, channel closed"
    }
}

/// An error which can occur when receiving on a closed or empty channel.
#[derive(Clone, Copy, Debug, PartialEq, Eq, Structural)]
pub enum TryRecvError {
    /// This **channel** is currently empty, but the **Sender**(s) have not yet
    /// disconnected, so data may yet become available.
    Empty,
    /// The **channel**'s sending half has become disconnected, and there will
    /// never be any more data received on it.
    Disconnected,
}

impl TryRecvError {
    /// Returns `true` if the error is [`TryRecvError::Empty`].
    pub fn is_empty(self) -> (result: bool)
        ensures
            result == (self is Empty),
    {
        matches!(self, TryRecvError::Empty)
    }

    /// Returns `true` if the error is [`TryRecvError::Disconnected`].
    pub fn is_disconnected(self) -> (result: bool)
        ensures
            result == (self is Disconnected),
    {
        matches!(self, TryRecvError::Disconnected)
    }

    /// Returns the description of the error.
    pub fn message(&self) -> (text: &'static str)
        ensures
            *self is Empty ==> text@ == "channel is empty"@,
            *self is Disconnected ==> text@ == "channel is closed"@,
    {
        match self {
            TryRecvError::Empty => "channel is empty",
            TryRecvError::Disconnected => "channel is closed",
        }
    }
}

/// An error which can occur when sending a value through a closed or full
/// channel.
#[derive(Clone, Copy, Debug, PartialEq, Eq)]
pub enum TrySendError<T> {
    /// This **channel** is currently full.
    Full(T),
    /// This **channel**'s receiving half has been explicitly disconnected or
    /// dropped and the channel was closed.
    Closed(T),
}

impl<T> TrySendError<T> {
    /// The error of a refused permit, carrying `elem`.
    pub open spec fn refused(error: TryAcquireError, elem: T) -> TrySendError<T> {
        match error {
            TryAcquireError::Closed => TrySendError::Closed(elem),
            TryAcquireError::NoPermits => TrySendError::Full(elem),
        }
    }

    /// Returns `true` if the error is [`TrySendError::Full`].
    pub fn is_full(&self) -> (result: bool)
        ensures
            result == (*self is Full),
    {
        matches!(self, TrySendError::Full(_))
    }

    /// Returns `true` if the error is [`TrySendError::Closed`].
    pub fn is_closed(&self) -> (result: bool)
        ensures
            result == (*self is Closed),
    {
        matches!(self, TrySendError::Closed(_))
    }

    /// Replaces the value that the error carries.
    pub fn set<U>(self, value: U) -> (error: TrySendError<U>)
        ensures
            self is Full ==> error == TrySendError::Full(value),
            self is Closed ==> error == TrySendError::Closed(value),
    {
        match self {
            TrySendError::Full(_) => TrySendError::Full(value),
            TrySendError::Closed(_) => TrySendError::Closed(value),
        }
    }

    /// Returns the description of the error.
    pub fn message(&self) -> (text: &'static str)
        ensures
            *self is Full ==> text@ == "failed to send value, channel full"@,
            *self is Closed ==> text@ == "failed to send value, channel closed"@,
    {
        match self {
            TrySendError::Full(_) => "failed to send value, channel full",
            TrySendError::Closed(_) => "failed to send value, channel closed",
        }
    }
}

impl<T> From<SendError<T>> for TrySendError<T> {
    fn from(err: SendError<T>) -> (error: Self) {
        TrySendError::Closed(err.0)
    }
}

impl<T> FromSpecImpl<SendError<T>> for TrySendError<T> {
    open spec fn obeys_from_spec() -> bool {
        true
    }

    open spec fn from_spec(err: SendError<T>) -> Self {
        TrySendError::Closed(err.0)
    }
}

impl<T> From<(TryAcquireError, T)> for TrySendError<T> {
    fn from(refused: (TryAcquireError, T)) -> (error: Self) {
        match refused.0 {
            TryAcquireError::Closed => TrySendError::Closed(refused.1),
            TryAcquireError::NoPermits => TrySendError::Full(refused.1),
        }
    }
}

impl<T> FromSpecImpl<(TryAcquireError, T)> for TrySendError<T> {
    open spec fn obeys_from_spec() -> bool {
        true
    }

    open spec fn from_spec(refused: (TryAcquireError, T)) -> Self {
        TrySendError::refused(refused.0, refused.1)
    }
}

impl From<TryAcquireError> for TrySendError<()> {
    fn from(err: TryAcquireError) -> (error: Self) {
        match err {
            TryAcquireError::Closed => TrySendError::Closed(()),
            TryAcquireError::NoPermits => TrySendError::Full(()),
        }
    }
}

impl FromSpecImpl<TryAcquireError> for TrySendError<()> {
    open spec fn obeys_from_spec() -> bool {
        true
    }

    open spec fn from_spec(err: TryAcquireError) -> Self {
        TrySendError::refused(err, ())
    }
}

/// Converting an error keeps the value and says of a closed channel or semaphore
/// that it is closed, and of missing permits that the channel is full.
pub proof fn law_conversions<T>(elem: T)
    ensures
        <TrySendError<T> as FromSpec<SendError<T>>>::from_spec(SendError(elem))
            == TrySendError::Closed(elem),
        <TrySendError<T> as FromSpec<(TryAcquireError, T)>>::from_spec(
            (TryAcquireError::Closed, elem),
        ) == TrySendError::Closed(elem),
        <TrySendError<T> as FromSpec<(TryAcquireError, T)>>::from_spec(
            (TryAcquireError::NoPermits, elem),
        ) == TrySendError::Full(elem),
        <TrySendError<()> as FromSpec<TryAcquireError>>::from_spec(TryAcquireError::Closed)
            == TrySendError::Closed(()),
        <TrySendError<()> as FromSpec<TryAcquireError>>::from_spec(TryAcquireError::NoPermits)
            == TrySendError::Full(()),
{
}

} // verus!

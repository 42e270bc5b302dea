//! A **oneshot** channel implementation.
//!
//! The state of a channel is the [`OneshotChannel`] itself. The handles that it
//! is split into name the channel that they belong to, and it is passed to each
//! of their operations.

use crate::error::{SendError, TryRecvError};
use crate::identity::InstanceId;
use crate::task::{Poll, Waker};
use core::marker::PhantomData;
use vstd::prelude::*;

verus! {

/// What a [`OneshotChannel`] stores.
pub struct OneshotView<T> {
    /// The value that has been sent and was not received yet.
    pub value: Option<T>,
    /// The task of the receiver that waits for the value.
    pub recv_waker: Option<Waker>,
    /// The task of the sender that waits for the channel to be closed.
    pub close_waker: Option<Waker>,
    /// Whether the channel has been closed.
    pub closed: bool,
    /// The tasks that have been woken and were not taken yet.
    pub wakes: Seq<Waker>,
}

impl<T> OneshotView<T> {
    /// The state of a new channel.
    pub open spec fn fresh() -> Self {
        OneshotView {
            value: None,
            recv_waker: None,
            close_waker: None,
            closed: false,
            wakes: Seq::empty(),
        }
    }

    /// The result of an attempt to send `value`.
    pub open spec fn send_result(self, value: T) -> Result<(), SendError<T>> {
        if self.closed {
            Err(SendError(value))
        } else {
            Ok(())
        }
    }

    /// The state after an attempt to send `value`, which notifies the receiver.
    pub open spec fn send(self, value: T) -> Self {
        if self.closed {
            self
        } else {
            OneshotView {
                value: Some(value),
                wakes: self.wakes + crate::task::wakes_of(self.recv_waker),
                ..self
            }
        }
    }

    /// The state after dropping the sender.
    pub open spec fn drop_sender(self) -> Self {
        OneshotView { closed: true, ..self }
    }

    /// The state after closing the channel, which notifies the sender.
    pub open spec fn close(self) -> Self {
        if self.closed {
            self
        } else {
            OneshotView {
                closed: true,
                wakes: self.wakes + crate::task::wakes_of(self.close_waker),
                ..self
            }
        }
    }

    /// The result of polling for the channel to be closed.
    pub open spec fn closed_result(self) -> Poll<()> {
        if self.closed {
            Poll::Ready(())
        } else {
            Poll::Pending
        }
    }

    /// The state after polling for the channel to be closed from the task
    /// `waker`.
    pub open spec fn poll_closed(self, waker: Waker) -> Self {
        if self.closed {
            self
        } else {
            OneshotView { close_waker: Some(waker), ..self }
        }
    }

    /// The result of an attempt to receive the value.
    pub open spec fn recv_result(self) -> Result<T, TryRecvError> {
        match self.value {
            Some(value) => Ok(value),
            None => if self.closed {
                Err(TryRecvError::Disconnected)
            } else {
                Err(TryRecvError::Empty)
            },
        }
    }

    /// The state after an attempt to receive the value.
    pub open spec fn recv(self) -> Self {
        OneshotView { value: None, ..self }
    }

    /// The result of polling for the value.
    pub open spec fn poll_result(self) -> Poll<Result<T, RecvError>> {
        match self.recv_result() {
            Ok(value) => Poll::Ready(Ok(value)),
            Err(TryRecvError::Disconnected) => Poll::Ready(Err(RecvError)),
            Err(TryRecvError::Empty) => Poll::Pending,
        }
    }

    /// The state after polling for the value from the task `waker`.
    pub open spec fn poll_recv(self, waker: Waker) -> Self {
        if self.poll_result() is Pending {
            OneshotView { recv_waker: Some(waker), ..self }
        } else {
            self.recv()
        }
    }
}

/// Creates a new oneshot channel.
pub fn channel<T>() -> (chan: OneshotChannel<T>)
    ensures
        chan@ == OneshotView::<T>::fresh(),
{
    OneshotChannel {
        shared: Shared {
            value: None,
            recv_waker: None,
            close_waker: None,
            closed: false,
            wakes: Vec::new(),
        },
        id: InstanceId::new(),
    }
}

/// An error which can occur when receiving on a closed channel.
#[derive(Clone, Copy, Debug, PartialEq, Eq, Structural)]
pub struct RecvError;

/// An asynchronous oneshot channel.
///
/// This is useful for asynchronously handing a single value from one task to
/// another.
pub struct OneshotChannel<T> {
    shared: Shared<T>,
    id: InstanceId,
}

impl<T> View for OneshotChannel<T> {
    type V = OneshotView<T>;

    closed spec fn view(&self) -> OneshotView<T> {
        self.shared@
    }
}

impl<T> OneshotChannel<T> {
    /// The identity of the channel, which its handles share.
    pub closed spec fn id(&self) -> usize {
        self.id@
    }

    /// Splits the channel into [`SenderRef`] and [`ReceiverRef`] handles.
    pub fn split(&mut self) -> (handles: (SenderRef<T>, ReceiverRef<T>))
        ensures
            final(self).id() == old(self).id(),
            final(self)@ == old(self)@,
            handles.0.id() == old(self).id(),
            handles.1.id() == old(self).id(),
    {
        (
            SenderRef { id: self.id.share(), value: PhantomData },
            ReceiverRef { id: self.id.share(), value: PhantomData },
        )
    }

    /// Consumes and splits the channel into [`Sender`] and [`Receiver`] handles
    /// and the state that they share.
    pub fn into_split(self) -> (parts: (Sender<T>, Receiver<T>, OneshotChannel<T>))
        ensures
            parts.2.id() == self.id(),
            parts.2@ == self@,
            parts.0.id() == self.id(),
            parts.1.id() == self.id(),
    {
        let sender = Sender { id: self.id.share(), value: PhantomData };
        let receiver = Receiver { id: self.id.share(), value: PhantomData };
        (sender, receiver, self)
    }

    /// Returns the value that has been sent and was not received yet.
    pub fn value(&self) -> (value: Option<&T>)
        ensures
            match value {
                Some(value) => self@.value == Some(*value),
                None => self@.value is None,
            },
    {
        self.shared.value.as_ref()
    }

    /// Takes the tasks that have been woken since they were last taken.
    pub fn take_wakes(&mut self) -> (wakes: Vec<Waker>)
        ensures
            final(self).id() == old(self).id(),
            wakes@ == old(self)@.wakes,
            final(self)@ == (OneshotView { wakes: Seq::empty(), ..old(self)@ }),
    {
        self.shared.take_wakes()
    }
}

/// A handle for sending a value through a channel that was
/// [consumed](OneshotChannel::into_split) for splitting.
pub struct Sender<T> {
    id: InstanceId,
    value: PhantomData<T>,
}

impl<T> Sender<T> {
    /// The identity of the channel that the handle belongs to.
    pub closed spec fn id(&self) -> usize {
        self.id@
    }

    /// Returns `true` if the channel has been closed.
    pub fn is_closed(&self, chan: &OneshotChannel<T>) -> (closed: bool)
        requires
            self.id() == chan.id(),
        ensures
            closed == chan@.closed,
    {
        chan.shared.closed
    }

    /// Polls the channel, resolving if the channel has been closed.
    pub fn poll_closed(&mut self, chan: &mut OneshotChannel<T>, waker: Waker) -> (result: Poll<()>)
        requires
            old(self).id() == old(chan).id(),
        ensures
            final(chan).id() == old(chan).id(),
            final(self).id() == old(self).id(),
            result == old(chan)@.closed_result(),
            final(chan)@ == old(chan)@.poll_closed(waker),
    {
        chan.shared.poll_closed(waker)
    }

    /// Sends a value through the channel and drops the handle.
    ///
    /// # Errors
    ///
    /// Fails, if the channel is closed.
    pub fn send(self, chan: &mut OneshotChannel<T>, value: T) -> (result: Result<(), SendError<T>>)
        requires
            self.id() == old(chan).id(),
        ensures
            final(chan).id() == old(chan).id(),
            result == old(chan)@.send_result(value),
            final(chan)@ == old(chan)@.send(value).drop_sender(),
    {
        let result = chan.shared.send(value);
        self.drop(chan);
        result
    }

    /// Drops the handle, which closes the channel.
    pub fn drop(self, chan: &mut OneshotChannel<T>)
        requires
            self.id() == old(chan).id(),
        ensures
            final(chan).id() == old(chan).id(),
            final(chan)@ == old(chan)@.drop_sender(),
    {
        chan.shared.closed = true;
    }
}

/// A handle for sending a value through a split
/// [`OneshotChannel`].
pub struct SenderRef<T> {
    id: InstanceId,
    value: PhantomData<T>,
}

impl<T> SenderRef<T> {
    /// The identity of the channel that the handle belongs to.
    pub closed spec fn id(&self) -> usize {
        self.id@
    }

    /// Returns `true` if the channel has been closed.
    pub fn is_closed(&self, chan: &OneshotChannel<T>) -> (closed: bool)
        requires
            self.id() == chan.id(),
        ensures
            closed == chan@.closed,
    {
        chan.shared.closed
    }

    /// Polls the channel, resolving if the channel has been closed.
    pub fn poll_closed(&mut self, chan: &mut OneshotChannel<T>, waker: Waker) -> (result: Poll<()>)
        requires
            old(self).id() == old(chan).id(),
        ensures
            final(chan).id() == old(chan).id(),
            final(self).id() == old(self).id(),
            result == old(chan)@.closed_result(),
            final(chan)@ == old(chan)@.poll_closed(waker),
    {
        chan.shared.poll_closed(waker)
    }

    /// Sends a value through the channel and drops the handle.
    ///
    /// # Errors
    ///
    /// Fails, if the channel is closed.
    pub fn send(self, chan: &mut OneshotChannel<T>, value: T) -> (result: Result<(), SendError<T>>)
        requires
            self.id() == old(chan).id(),
        ensures
            final(chan).id() == old(chan).id(),
            result == old(chan)@.send_result(value),
            final(chan)@ == old(chan)@.send(value).drop_sender(),
    {
        let result = chan.shared.send(value);
        self.drop(chan);
        result
    }

    /// Drops the handle, which closes the channel.
    pub fn drop(self, chan: &mut OneshotChannel<T>)
        requires
            self.id() == old(chan).id(),
        ensures
            final(chan).id() == old(chan).id(),
            final(chan)@ == old(chan)@.drop_sender(),
    {
        chan.shared.closed = true;
    }
}

/// A handle for receiving a value through a channel that was
/// [consumed](OneshotChannel::into_split) for splitting.
pub struct Receiver<T> {
    id: InstanceId,
    value: PhantomData<T>,
}

impl<T> Receiver<T> {
    /// The identity of the channel that the handle belongs to.
    pub closed spec fn id(&self) -> usize {
        self.id@
    }

    /// Returns `true` if the channel has been closed.
    pub fn is_closed(&self, chan: &OneshotChannel<T>) -> (closed: bool)
        requires
            self.id() == chan.id(),
        ensures
            closed == chan@.closed,
    {
        chan.shared.closed
    }

    /// Closes the channel, causing any subsequent
    /// [`poll_closed`](Sender::poll_closed) calls to resolve and any subsequent
    /// [`send`](Sender::send) to fail on the corresponding [`Sender`].
    pub fn close(&mut self, chan: &mut OneshotChannel<T>)
        requires
            old(self).id() == old(chan).id(),
        ensures
            final(chan).id() == old(chan).id(),
            final(self).id() == old(self).id(),
            final(chan)@ == old(chan)@.close(),
    {
        chan.shared.close_and_wake();
    }

    /// Receives an element through the channel.
    ///
    /// # Errors
    ///
    /// Fails, if the channel is [empty](TryRecvError::Empty) or
    /// [disconnected](TryRecvError::Disconnected).
    pub fn try_recv(&mut self, chan: &mut OneshotChannel<T>) -> (result: Result<T, TryRecvError>)
        requires
            old(self).id() == old(chan).id(),
        ensures
            final(chan).id() == old(chan).id(),
            final(self).id() == old(self).id(),
            result == old(chan)@.recv_result(),
            final(chan)@ == old(chan)@.recv(),
    {
        chan.shared.try_recv()
    }

    /// Polls the channel, resolving if the value was received or the channel is
    /// closed.
    pub fn poll(&mut self, chan: &mut OneshotChannel<T>, waker: Waker) -> (result: Poll<
        Result<T, RecvError>,
    >)
        requires
            old(self).id() == old(chan).id(),
        ensures
            final(chan).id() == old(chan).id(),
            final(self).id() == old(self).id(),
            result == old(chan)@.poll_result(),
            final(chan)@ == old(chan)@.poll_recv(waker),
    {
        chan.shared.poll_recv(waker)
    }

    /// Drops the handle, which closes the channel.
    pub fn drop(self, chan: &mut OneshotChannel<T>)
        requires
            self.id() == old(chan).id(),
        ensures
            final(chan).id() == old(chan).id(),
            final(chan)@ == old(chan)@.close(),
    {
        chan.shared.close_and_wake();
    }
}

/// A handle for receiving a value through a split
/// [`OneshotChannel`].
pub struct ReceiverRef<T> {
    id: InstanceId,
    value: PhantomData<T>,
}

impl<T> ReceiverRef<T> {
    /// The identity of the channel that the handle belongs to.
    pub closed spec fn id(&self) -> usize {
        self.id@
    }

    /// Returns `true` if the channel has been closed.
    pub fn is_closed(&self, chan: &OneshotChannel<T>) -> (closed: bool)
        requires
            self.id() == chan.id(),
        ensures
            closed == chan@.closed,
    {
        chan.shared.closed
    }

    /// Closes the channel, causing any subsequent
    /// [`poll_closed`](SenderRef::poll_closed) calls to resolve and any subsequent
    /// [`send`](SenderRef::send) to fail on the corresponding [`SenderRef`].
    pub fn close(&mut self, chan: &mut OneshotChannel<T>)
        requires
            old(self).id() == old(chan).id(),
        ensures
            final(chan).id() == old(chan).id(),
            final(self).id() == old(self).id(),
            final(chan)@ == old(chan)@.close(),
    {
        chan.shared.close_and_wake();
    }

    /// Receives an element through the channel.
    ///
    /// # Errors
    ///
    /// Fails, if the channel is [empty](TryRecvError::Empty) or
    /// [disconnected](TryRecvError::Disconnected).
    pub fn try_recv(&mut self, chan: &mut OneshotChannel<T>) -> (result: Result<T, TryRecvError>)
        requires
            old(self).id() == old(chan).id(),
        ensures
            final(chan).id() == old(chan).id(),
            final(self).id() == old(self).id(),
            result == old(chan)@.recv_result(),
            final(chan)@ == old(chan)@.recv(),
    {
        chan.shared.try_recv()
    }

    /// Polls the channel, resolving if the value was received or the channel is
    /// closed.
    pub fn poll(&mut self, chan: &mut OneshotChannel<T>, waker: Waker) -> (result: Poll<
        Result<T, RecvError>,
    >)
        requires
            old(self).id() == old(chan).id(),
        ensures
            final(chan).id() == old(chan).id(),
            final(self).id() == old(self).id(),
            result == old(chan)@.poll_result(),
            final(chan)@ == old(chan)@.poll_recv(waker),
    {
        chan.shared.poll_recv(waker)
    }

    /// Drops the handle, which closes the channel.
    pub fn drop(self, chan: &mut OneshotChannel<T>)
        requires
            self.id() == old(chan).id(),
        ensures
            final(chan).id() == old(chan).id(),
            final(chan)@ == old(chan)@.close(),
    {
        chan.shared.close_and_wake();
    }
}

/// The internal state of a [`OneshotChannel`].
struct Shared<T> {
    /// The value that has been sent and was not received yet.
    value: Option<T>,
    /// The waker for the receiver.
    recv_waker: Option<Waker>,
    /// The waker for the sender.
    close_waker: Option<Waker>,
    /// The flag indicating if the channel has been closed.
    closed: bool,
    /// The tasks that have been woken and were not taken yet.
    wakes: Vec<Waker>,
}

impl<T> View for Shared<T> {
    type V = OneshotView<T>;

    closed spec fn view(&self) -> OneshotView<T> {
        OneshotView {
            value: self.value,
            recv_waker: self.recv_waker,
            close_waker: self.close_waker,
            closed: self.closed,
            wakes: self.wakes@,
        }
    }
}

impl<T> Shared<T> {
    /// Stores `value` and wakes the receiver unless the channel is closed.
    fn send(&mut self, value: T) -> (result: Result<(), SendError<T>>)
        ensures
            result == old(self)@.send_result(value),
            final(self)@ == old(self)@.send(value),
    {
        // check, if channel has been closed
        if self.closed {
            return Err(SendError(value));
        }
        // store sent value & wake a possibly registered receiver

        self.value = Some(value);
        if let Some(waker) = self.recv_waker {
            self.wakes.push(waker);
        }
        assert(self@.wakes =~= old(self)@.send(value).wakes);
        Ok(())
    }

    /// Closes the channel and wakes the sender unless the channel is already
    /// closed.
    fn close_and_wake(&mut self)
        ensures
            final(self)@ == old(self)@.close(),
    {
        if self.closed {
            return ;
        }
        self.closed = true;
        if let Some(waker) = self.close_waker {
            self.wakes.push(waker);
        }
        assert(self@.wakes =~= old(self)@.close().wakes);
    }

    /// Registers `waker` to be woken once the channel is closed.
    fn poll_closed(&mut self, waker: Waker) -> (result: Poll<()>)
        ensures
            result == old(self)@.closed_result(),
            final(self)@ == old(self)@.poll_closed(waker),
    {
        if self.closed {
            Poll::Ready(())
        } else {
            self.close_waker = Some(waker);
            Poll::Pending
        }
    }

    /// Takes the value.
    fn try_recv(&mut self) -> (result: Result<T, TryRecvError>)
        ensures
            result == old(self)@.recv_result(),
            final(self)@ == old(self)@.recv(),
    {
        match self.value.take() {
            Some(value) => Ok(value),
            None => match self.closed {
                true => Err(TryRecvError::Disconnected),
                false => Err(TryRecvError::Empty),
            },
        }
    }

    /// Takes the value or registers `waker` to be woken once it is there.
    fn poll_recv(&mut self, waker: Waker) -> (result: Poll<Result<T, RecvError>>)
        ensures
            result == old(self)@.poll_result(),
            final(self)@ == old(self)@.poll_recv(waker),
    {
        match self.try_recv() {
            Ok(value) => Poll::Ready(Ok(value)),
            Err(TryRecvError::Disconnected) => Poll::Ready(Err(RecvError)),
            Err(TryRecvError::Empty) => {
                self.recv_waker = Some(waker);
                Poll::Pending
            },
        }
    }

    /// Takes the wakes since they were last taken.
    fn take_wakes(&mut self) -> (wakes: Vec<Waker>)
        ensures
            wakes@ == old(self)@.wakes,
            final(self)@ == (OneshotView { wakes: Seq::empty(), ..old(self)@ }),
    {
        let mut wakes: Vec<Waker> = Vec::new();
        core::mem::swap(&mut wakes, &mut self.wakes);
        wakes
    }
}

} // verus!

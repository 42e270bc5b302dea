//! An **unbounded** MPSC channel implementation.
//!
//! The state of a channel is the [`UnboundedChannel`] itself. The handles that
//! it is split into name the channel that they belong to, and it is passed to
//! each of their operations.

use crate::bound::UnboundedState;
use crate::error::{SendError, TryRecvError};
use crate::identity::InstanceId;
use crate::mask::{COUNTED, UNCOUNTED};
use crate::queue::{MaybeBoundedQueue, Queue, QueueView, UnboundedQueue};
use crate::task::{Poll, Waker};
use core::marker::PhantomData;
use std::collections::VecDeque;
use vstd::prelude::*;

verus! {

/// Returns a new unbounded channel.
pub fn channel<T>() -> (chan: UnboundedChannel<T>)
    ensures
        chan.wf(),
        chan@ == QueueView::fresh(Seq::<T>::empty(), UnboundedState),
{
    UnboundedChannel { queue: Queue::<T, crate::queue::Unbounded>::new() }
}

/// Returns a new unbounded channel with pre-queued elements.
pub fn channel_from_iter<T>(elems: VecDeque<T>) -> (chan: UnboundedChannel<T>)
    ensures
        chan.wf(),
        chan@ == QueueView::fresh(elems@, UnboundedState),
{
    UnboundedChannel::from_iter(elems)
}

/// An asynchronous and unbounded channel.
pub struct UnboundedChannel<T> {
    queue: UnboundedQueue<T>,
}

impl<T> View for UnboundedChannel<T> {
    type V = QueueView<T, UnboundedState>;

    closed spec fn view(&self) -> QueueView<T, UnboundedState> {
        self.queue@
    }
}

impl<T> UnboundedChannel<T> {
    /// The identity of the channel, which its handles share.
    pub closed spec fn id(&self) -> usize {
        self.queue.id()
    }

    /// Whether the channel is well-formed.
    pub closed spec fn wf(&self) -> bool {
        self.queue.wf()
    }

    /// Returns a new unbounded channel with pre-queued elements.
    pub fn from_iter(elems: VecDeque<T>) -> (chan: Self)
        ensures
            chan.wf(),
            chan@ == QueueView::fresh(elems@, UnboundedState),
    {
        UnboundedChannel { queue: Queue::<T, crate::queue::Unbounded>::from_iter(elems) }
    }

    /// Returns a new unbounded channel with pre-allocated initial capacity.
    pub fn with_initial_capacity(initial: usize) -> (chan: Self)
        ensures
            chan.wf(),
            chan@ == QueueView::fresh(Seq::<T>::empty(), UnboundedState),
    {
        UnboundedChannel { queue: Queue::<T, crate::queue::Unbounded>::with_capacity(initial) }
    }

    /// Returns `true` if the channel can be split into handles.
    pub fn can_split(&self) -> (result: bool)
        ensures
            result == self@.can_split(),
    {
        self.queue.can_split()
    }

    /// Returns `true` if one more sender can be counted.
    pub fn can_add_sender(&self) -> (result: bool)
        ensures
            result == self@.mask.has_room(),
    {
        self.queue.can_add_sender()
    }

    /// Returns the number of senders that are counted.
    pub fn senders(&self) -> (senders: usize)
        ensures
            senders == self@.mask.senders,
    {
        self.queue.senders()
    }

    /// Splits the channel into [`UnboundedSenderRef`] and
    /// [`UnboundedReceiverRef`] handles.
    pub fn split(&mut self) -> (handles: (UnboundedSenderRef<T>, UnboundedReceiverRef<T>))
        requires
            old(self).wf(),
            old(self)@.can_split(),
        ensures
            final(self).wf(),
            final(self).id() == old(self).id(),
            handles.0.id() == old(self).id(),
            handles.1.id() == old(self).id(),
            final(self)@ == old(self)@.split(),
    {
        self.queue.set_counted();
        (
            UnboundedSenderRef { id: self.queue.share_id(), elem: PhantomData },
            UnboundedReceiverRef { id: self.queue.share_id(), elem: PhantomData },
        )
    }

    /// Consumes and splits the channel into [`UnboundedSender`] and
    /// [`UnboundedReceiver`] handles and the state that they share.
    pub fn into_split(self) -> (parts: (UnboundedSender<T>, UnboundedReceiver<T>, Self))
        requires
            self.wf(),
            self@.can_split(),
        ensures
            parts.2.wf(),
            parts.2.id() == self.id(),
            parts.0.id() == self.id(),
            parts.1.id() == self.id(),
            parts.2@ == self@.split(),
    {
        let mut chan = self;
        chan.queue.set_counted();
        let sender = UnboundedSender { id: chan.queue.share_id(), elem: PhantomData };
        let receiver = UnboundedReceiver { id: chan.queue.share_id(), elem: PhantomData };
        (sender, receiver, chan)
    }

    /// Converts into the underlying [`VecDeque`] container.
    pub fn into_deque(self) -> (elems: VecDeque<T>)
        ensures
            elems@ == self@.elems,
    {
        self.queue.into_deque()
    }

    /// Returns the number of queued elements.
    pub fn len(&self) -> (len: usize)
        ensures
            len == self@.elems.len(),
    {
        self.queue.len()
    }

    /// Closes the channel, ensuring that all subsequent sends will fail.
    pub fn close(&mut self)
        requires
            old(self).wf(),
        ensures
            final(self).wf(),
            final(self).id() == old(self).id(),
            final(self)@ == old(self)@.close(UNCOUNTED),
    {
        self.queue.close::<UNCOUNTED>();
    }

    /// Returns `true` if the channel is closed.
    pub fn is_closed(&self) -> (closed: bool)
        ensures
            closed == self@.mask.closed,
    {
        self.queue.is_closed::<UNCOUNTED>()
    }

    /// Returns `true` if the channel is empty.
    pub fn is_empty(&self) -> (empty: bool)
        ensures
            empty == (self@.elems.len() == 0),
    {
        self.len() == 0
    }

    /// Receives an element through the channel.
    ///
    /// # Errors
    ///
    /// Fails, if the channel is [empty](TryRecvError::Empty) or
    /// [disconnected](TryRecvError::Disconnected).
    pub fn try_recv(&mut self) -> (result: Result<T, TryRecvError>)
        requires
            old(self).wf(),
        ensures
            final(self).wf(),
            final(self).id() == old(self).id(),
            result == old(self)@.recv_result(),
            final(self)@ == old(self)@.recv(),
    {
        self.queue.try_recv::<UNCOUNTED>()
    }

    /// Polls the channel, resolving if an element was received or the channel
    /// is closed, ignoring whether there are any remaining **Sender**(s) or
    /// not.
    ///
    /// Only the task that polled last is woken.
    pub fn poll_recv(&mut self, waker: Waker) -> (result: Poll<Option<T>>)
        requires
            old(self).wf(),
        ensures
            final(self).wf(),
            final(self).id() == old(self).id(),
            result == old(self)@.poll_result(),
            final(self)@ == old(self)@.poll_recv(waker),
    {
        self.queue.poll_recv::<UNCOUNTED>(waker)
    }

    /// Sends a value through the channel.
    ///
    /// # Errors
    ///
    /// Fails, if the queue is closed.
    pub fn send(&mut self, elem: T) -> (result: Result<(), SendError<T>>)
        requires
            old(self).wf(),
        ensures
            final(self).wf(),
            final(self).id() == old(self).id(),
            result == old(self)@.send_result(elem),
            final(self)@ == old(self)@.send(elem),
    {
        self.queue.send::<UNCOUNTED>(elem)
    }

    /// Takes the tasks that have been woken since they were last taken.
    pub fn take_wakes(&mut self) -> (wakes: Vec<Waker>)
        requires
            old(self).wf(),
        ensures
            final(self).wf(),
            final(self).id() == old(self).id(),
            wakes@ == old(self)@.wakes,
            final(self)@ == old(self)@.without_wakes(),
    {
        self.queue.take_receiver_wakes()
    }
}

/// A handle for sending elements through an unbounded channel that was
/// [consumed](UnboundedChannel::into_split) for splitting.
pub struct UnboundedSender<T> {
    id: InstanceId,
    elem: PhantomData<T>,
}

impl<T> UnboundedSender<T> {
    /// The identity of the channel that the handle belongs to.
    pub closed spec fn id(&self) -> usize {
        self.id@
    }

    /// Returns the number of queued elements.
    pub fn len(&self, chan: &UnboundedChannel<T>) -> (len: usize)
        requires
            self.id() == chan.id(),
        ensures
            len == chan@.elems.len(),
    {
        chan.queue.len()
    }

    /// Returns `true` if the channel is closed.
    pub fn is_closed(&self, chan: &UnboundedChannel<T>) -> (closed: bool)
        requires
            self.id() == chan.id(),
        ensures
            closed == chan@.mask.closed,
    {
        chan.queue.is_closed::<COUNTED>()
    }

    /// Returns `true` if the channel is empty.
    pub fn is_empty(&self, chan: &UnboundedChannel<T>) -> (empty: bool)
        requires
            self.id() == chan.id(),
        ensures
            empty == (chan@.elems.len() == 0),
    {
        chan.queue.len() == 0
    }

    /// Returns `true` if `self` and `other` are handles for the same channel
    /// instance.
    pub fn same_channel(&self, other: &Self) -> (result: bool)
        ensures
            result == (self.id() == other.id()),
    {
        self.id.same(&other.id)
    }

    /// Sends a value through the channel.
    ///
    /// # Errors
    ///
    /// Fails, if the queue is closed.
    pub fn send(&self, chan: &mut UnboundedChannel<T>, elem: T) -> (result: Result<
        (),
        SendError<T>,
    >)
        requires
            old(chan).wf(),
            self.id() == old(chan).id(),
        ensures
            final(chan).wf(),
            final(chan).id() == old(chan).id(),
            result == old(chan)@.send_result(elem),
            final(chan)@ == old(chan)@.send(elem),
    {
        chan.queue.send::<COUNTED>(elem)
    }

    /// Returns another handle for the same channel, which counts as one more
    /// sender.
    pub fn clone(&self, chan: &mut UnboundedChannel<T>) -> (sender: Self)
        requires
            old(chan).wf(),
            self.id() == old(chan).id(),
            old(chan)@.mask.has_room(),
        ensures
            final(chan).wf(),
            final(chan).id() == old(chan).id(),
            sender.id() == self.id(),
            final(chan)@ == old(chan)@.add_sender(),
    {
        chan.queue.increase_sender_count();
        UnboundedSender { id: self.id.share(), elem: PhantomData }
    }

    /// Drops the handle, which closes the channel if it was the last sender.
    pub fn drop(self, chan: &mut UnboundedChannel<T>)
        requires
            old(chan).wf(),
            self.id() == old(chan).id(),
            old(chan)@.mask.senders >= 1,
        ensures
            final(chan).wf(),
            final(chan).id() == old(chan).id(),
            final(chan)@ == old(chan)@.remove_sender(),
    {
        chan.queue.decrease_sender_count();
    }
}

/// A handle for sending elements through a split
/// [`UnboundedChannel`].
pub struct UnboundedSenderRef<T> {
    id: InstanceId,
    elem: PhantomData<T>,
}

impl<T> UnboundedSenderRef<T> {
    /// The identity of the channel that the handle belongs to.
    pub closed spec fn id(&self) -> usize {
        self.id@
    }

    /// Returns the number of queued elements.
    pub fn len(&self, chan: &UnboundedChannel<T>) -> (len: usize)
        requires
            self.id() == chan.id(),
        ensures
            len == chan@.elems.len(),
    {
        chan.queue.len()
    }

    /// Returns `true` if the channel is closed.
    pub fn is_closed(&self, chan: &UnboundedChannel<T>) -> (closed: bool)
        requires
            self.id() == chan.id(),
        ensures
            closed == chan@.mask.closed,
    {
        chan.queue.is_closed::<COUNTED>()
    }

    /// Returns `true` if the channel is empty.
    pub fn is_empty(&self, chan: &UnboundedChannel<T>) -> (empty: bool)
        requires
            self.id() == chan.id(),
        ensures
            empty == (chan@.elems.len() == 0),
    {
        chan.queue.len() == 0
    }

    /// Returns `true` if `self` and `other` are handles for the same channel
    /// instance.
    pub fn same_channel(&self, other: &Self) -> (result: bool)
        ensures
            result == (self.id() == other.id()),
    {
        self.id.same(&other.id)
    }

    /// Sends a value through the channel.
    ///
    /// # Errors
    ///
    /// Fails, if the queue is closed.
    pub fn send(&self, chan: &mut UnboundedChannel<T>, elem: T) -> (result: Result<
        (),
        SendError<T>,
    >)
        requires
            old(chan).wf(),
            self.id() == old(chan).id(),
        ensures
            final(chan).wf(),
            final(chan).id() == old(chan).id(),
            result == old(chan)@.send_result(elem),
            final(chan)@ == old(chan)@.send(elem),
    {
        chan.queue.send::<COUNTED>(elem)
    }

    /// Returns another handle for the same channel, which counts as one more
    /// sender.
    pub fn clone(&self, chan: &mut UnboundedChannel<T>) -> (sender: Self)
        requires
            old(chan).wf(),
            self.id() == old(chan).id(),
            old(chan)@.mask.has_room(),
        ensures
            final(chan).wf(),
            final(chan).id() == old(chan).id(),
            sender.id() == self.id(),
            final(chan)@ == old(chan)@.add_sender(),
    {
        chan.queue.increase_sender_count();
        UnboundedSenderRef { id: self.id.share(), elem: PhantomData }
    }

    /// Drops the handle, which closes the channel if it was the last sender.
    pub fn drop(self, chan: &mut UnboundedChannel<T>)
        requires
            old(chan).wf(),
            self.id() == old(chan).id(),
            old(chan)@.mask.senders >= 1,
        ensures
            final(chan).wf(),
            final(chan).id() == old(chan).id(),
            final(chan)@ == old(chan)@.remove_sender(),
    {
        chan.queue.decrease_sender_count();
    }
}

/// A handle for receiving elements through an unbounded channel that was
/// [consumed](UnboundedChannel::into_split) for splitting.
pub struct UnboundedReceiver<T> {
    id: InstanceId,
    elem: PhantomData<T>,
}

impl<T> UnboundedReceiver<T> {
    /// The identity of the channel that the handle belongs to.
    pub closed spec fn id(&self) -> usize {
        self.id@
    }

    /// Closes the channel, ensuring that all subsequent sends will fail.
    pub fn close(&mut self, chan: &mut UnboundedChannel<T>)
        requires
            old(chan).wf(),
            old(self).id() == old(chan).id(),
        ensures
            final(chan).wf(),
            final(chan).id() == old(chan).id(),
            final(self).id() == old(self).id(),
            final(chan)@ == old(chan)@.close(COUNTED),
    {
        chan.queue.close::<COUNTED>();
    }

    /// Returns the number of queued elements.
    pub fn len(&self, chan: &UnboundedChannel<T>) -> (len: usize)
        requires
            self.id() == chan.id(),
        ensures
            len == chan@.elems.len(),
    {
        chan.queue.len()
    }

    /// Returns `true` if the channel is closed.
    pub fn is_closed(&self, chan: &UnboundedChannel<T>) -> (closed: bool)
        requires
            self.id() == chan.id(),
        ensures
            closed == chan@.mask.closed,
    {
        chan.queue.is_closed::<COUNTED>()
    }

    /// Returns `true` if the channel is empty.
    pub fn is_empty(&self, chan: &UnboundedChannel<T>) -> (empty: bool)
        requires
            self.id() == chan.id(),
        ensures
            empty == (chan@.elems.len() == 0),
    {
        chan.queue.len() == 0
    }

    /// Attempts to receive an element through the channel.
    ///
    /// # Errors
    ///
    /// Fails, if the channel is [empty](TryRecvError::Empty) or
    /// [disconnected](TryRecvError::Disconnected).
    pub fn try_recv(&mut self, chan: &mut UnboundedChannel<T>) -> (result: Result<T, TryRecvError>)
        requires
            old(chan).wf(),
            old(self).id() == old(chan).id(),
        ensures
            final(chan).wf(),
            final(chan).id() == old(chan).id(),
            final(self).id() == old(self).id(),
            result == old(chan)@.recv_result(),
            final(chan)@ == old(chan)@.recv(),
    {
        chan.queue.try_recv::<COUNTED>()
    }

    /// Polls the channel, resolving if an element was received or the channel
    /// is closed.
    pub fn poll_recv(&mut self, chan: &mut UnboundedChannel<T>, waker: Waker) -> (result: Poll<
        Option<T>,
    >)
        requires
            old(chan).wf(),
            old(self).id() == old(chan).id(),
        ensures
            final(chan).wf(),
            final(chan).id() == old(chan).id(),
            final(self).id() == old(self).id(),
            result == old(chan)@.poll_result(),
            final(chan)@ == old(chan)@.poll_recv(waker),
    {
        chan.queue.poll_recv::<COUNTED>(waker)
    }

    /// Drops the handle, which closes the channel.
    pub fn drop(self, chan: &mut UnboundedChannel<T>)
        requires
            old(chan).wf(),
            self.id() == old(chan).id(),
        ensures
            final(chan).wf(),
            final(chan).id() == old(chan).id(),
            final(chan)@ == old(chan)@.close(COUNTED),
    {
        chan.queue.close::<COUNTED>();
    }
}

/// A handle for receiving elements through a split
/// [`UnboundedChannel`].
pub struct UnboundedReceiverRef<T> {
    id: InstanceId,
    elem: PhantomData<T>,
}

impl<T> UnboundedReceiverRef<T> {
    /// The identity of the channel that the handle belongs to.
    pub closed spec fn id(&self) -> usize {
        self.id@
    }

    /// Closes the channel, ensuring that all subsequent sends will fail.
    pub fn close(&mut self, chan: &mut UnboundedChannel<T>)
        requires
            old(chan).wf(),
            old(self).id() == old(chan).id(),
        ensures
            final(chan).wf(),
            final(chan).id() == old(chan).id(),
            final(self).id() == old(self).id(),
            final(chan)@ == old(chan)@.close(COUNTED),
    {
        chan.queue.close::<COUNTED>();
    }

    /// Returns the number of queued elements.
    pub fn len(&self, chan: &UnboundedChannel<T>) -> (len: usize)
        requires
            self.id() == chan.id(),
        ensures
            len == chan@.elems.len(),
    {
        chan.queue.len()
    }

    /// Returns `true` if the channel is closed.
    pub fn is_closed(&self, chan: &UnboundedChannel<T>) -> (closed: bool)
        requires
            self.id() == chan.id(),
        ensures
            closed == chan@.mask.closed,
    {
        chan.queue.is_closed::<COUNTED>()
    }

    /// Returns `true` if the channel is empty.
    pub fn is_empty(&self, chan: &UnboundedChannel<T>) -> (empty: bool)
        requires
            self.id() == chan.id(),
        ensures
            empty == (chan@.elems.len() == 0),
    {
        chan.queue.len() == 0
    }

    /// Attempts to receive an element through the channel.
    ///
    /// # Errors
    ///
    /// Fails, if the channel is [empty](TryRecvError::Empty) or
    /// [disconnected](TryRecvError::Disconnected).
    pub fn try_recv(&mut self, chan: &mut UnboundedChannel<T>) -> (result: Result<T, TryRecvError>)
        requires
            old(chan).wf(),
            old(self).id() == old(chan).id(),
        ensures
            final(chan).wf(),
            final(chan).id() == old(chan).id(),
            final(self).id() == old(self).id(),
            result == old(chan)@.recv_result(),
            final(chan)@ == old(chan)@.recv(),
    {
        chan.queue.try_recv::<COUNTED>()
    }

    /// Polls the channel, resolving if an element was received or the channel
    /// is closed.
    pub fn poll_recv(&mut self, chan: &mut UnboundedChannel<T>, waker: Waker) -> (result: Poll<
        Option<T>,
    >)
        requires
            old(chan).wf(),
            old(self).id() == old(chan).id(),
        ensures
            final(chan).wf(),
            final(chan).id() == old(chan).id(),
            final(self).id() == old(self).id(),
            result == old(chan)@.poll_result(),
            final(chan)@ == old(chan)@.poll_recv(waker),
    {
        chan.queue.poll_recv::<COUNTED>(waker)
    }

    /// Drops the handle, which closes the channel.
    pub fn drop(self, chan: &mut UnboundedChannel<T>)
        requires
            old(chan).wf(),
            self.id() == old(chan).id(),
        ensures
            final(chan).wf(),
            final(chan).id() == old(chan).id(),
            final(chan)@ == old(chan)@.close(COUNTED),
    {
        chan.queue.close::<COUNTED>();
    }
}

} // verus!

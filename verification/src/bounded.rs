//! A **bounded** MPSC channel implementation.
//!
//! The state of a channel is the [`Channel`] itself. The handles that it is
//! split into name the channel that they belong to, and it is passed to each of
//! their operations.

use crate::bound::BoundedState;
use crate::error::{SendError, TryRecvError, TrySendError};
use crate::identity::InstanceId;
use crate::mask::{COUNTED, UNCOUNTED};
use crate::permits::{Acquisition, SemaphoreView};
use crate::queue::{BoundedQueue, MaybeBoundedQueue, Queue, QueueView};
use crate::semaphore::Acquire;
use crate::task::{Poll, Waker};
use core::marker::PhantomData;
use std::collections::VecDeque;
use vstd::prelude::*;

verus! {

/// Creates a new bounded channel with the given `capacity`, which must not be
/// zero.
pub fn channel<T>(capacity: usize) -> (chan: Channel<T>)
    requires
        capacity > 0,
    ensures
        chan.wf(),
        chan@ == QueueView::fresh(
            Seq::<T>::empty(),
            BoundedState::fresh(capacity as nat, capacity as nat),
        ),
{
    Channel { shared: Queue::<T, crate::queue::Bounded>::new(capacity) }
}

/// Returns a new bounded channel with pre-queued elements.
///
/// The initial capacity will be the difference between `capacity` and the
/// number of elements.
/// There may be more than `capacity` elements, but the channel's capacity will
/// never exceed the given `capacity`, which must not be zero.
pub fn channel_from_iter<T>(capacity: usize, elems: VecDeque<T>) -> (chan: Channel<T>)
    requires
        capacity > 0,
    ensures
        chan.wf(),
        chan@ == QueueView::fresh(
            elems@,
            BoundedState::fresh(
                crate::permits::sat_sub(capacity as nat, elems@.len()),
                capacity as nat,
            ),
        ),
{
    Channel::from_iter(capacity, elems)
}

/// An asynchronous and bounded channel.
///
/// Unlike [unbounded](crate::unbounded) channels, these are created with a
/// constant [maximum capacity](Channel::max_capacity), up to which values can
/// be sent to the channel.
/// Any further sends will have to wait, until capacity is restored by
/// [receiving](Channel::poll_recv) already stored values.
pub struct Channel<T> {
    shared: BoundedQueue<T>,
}

impl<T> View for Channel<T> {
    type V = QueueView<T, BoundedState>;

    closed spec fn view(&self) -> QueueView<T, BoundedState> {
        self.shared@
    }
}

impl<T> Channel<T> {
    /// The identity of the channel, which its handles share.
    pub closed spec fn id(&self) -> usize {
        self.shared.id()
    }

    /// Whether the channel is well-formed.
    pub closed spec fn wf(&self) -> bool {
        self.shared.wf()
    }

    /// The invariant of a bounded queue holds of every well-formed channel.
    pub proof fn lemma_inv(&self)
        requires
            self.wf(),
        ensures
            self@.extra.inv(),
    {
        self.shared.lemma_inv();
    }

    /// Returns a new bounded channel with pre-allocated initial capacity.
    pub fn with_initial_capacity(capacity: usize, initial: usize) -> (chan: Self)
        requires
            capacity > 0,
        ensures
            chan.wf(),
            chan@ == QueueView::fresh(
                Seq::<T>::empty(),
                BoundedState::fresh(capacity as nat, capacity as nat),
            ),
    {
        Channel { shared: Queue::<T, crate::queue::Bounded>::with_capacity(capacity, initial) }
    }

    /// Returns a new bounded channel with pre-queued elements.
    ///
    /// The initial capacity will be the difference between `capacity` and the
    /// number of elements.
    /// There may be more than `capacity` elements, but the channel's capacity
    /// will never exceed the given `capacity`, which must not be zero.
    pub fn from_iter(capacity: usize, elems: VecDeque<T>) -> (chan: Self)
        requires
            capacity > 0,
        ensures
            chan.wf(),
            chan@ == QueueView::fresh(
                elems@,
                BoundedState::fresh(
                    crate::permits::sat_sub(capacity as nat, elems@.len()),
                    capacity as nat,
                ),
            ),
    {
        Channel { shared: Queue::<T, crate::queue::Bounded>::from_iter(capacity, elems) }
    }

    /// Returns `true` if the channel can be split into handles.
    pub fn can_split(&self) -> (result: bool)
        ensures
            result == self@.can_split(),
    {
        self.shared.can_split()
    }

    /// Returns `true` if one more sender can be counted.
    pub fn can_add_sender(&self) -> (result: bool)
        ensures
            result == self@.mask.has_room(),
    {
        self.shared.can_add_sender()
    }

    /// Returns the number of senders that are counted.
    pub fn senders(&self) -> (senders: usize)
        ensures
            senders == self@.mask.senders,
    {
        self.shared.senders()
    }

    /// Splits the channel into [`SenderRef`] and [`ReceiverRef`] handles.
    ///
    /// The capacity is reset to the maximum capacity.
    pub fn split(&mut self) -> (handles: (SenderRef<T>, ReceiverRef<T>))
        requires
            old(self).wf(),
            old(self)@.can_split(),
        ensures
            final(self).wf(),
            final(self).id() == old(self).id(),
            handles.0.id() == old(self).id(),
            handles.1.id() == old(self).id(),
            final(self)@ == old(self)@.split(),
    {
        self.shared.set_counted();
        (
            SenderRef { id: self.shared.share_id(), elem: PhantomData },
            ReceiverRef { id: self.shared.share_id(), elem: PhantomData },
        )
    }

    /// Consumes and splits the channel into [`Sender`] and [`Receiver`]
    /// handles and the state that they share.
    pub fn into_split(self) -> (parts: (Sender<T>, Receiver<T>, Channel<T>))
        requires
            self.wf(),
            self@.can_split(),
        ensures
            parts.2.wf(),
            parts.2.id() == self.id(),
            parts.0.id() == self.id(),
            parts.1.id() == self.id(),
            parts.2@ == self@.split(),
    {
        let mut chan = self;
        chan.shared.set_counted();
        let sender = Sender { id: chan.shared.share_id(), elem: PhantomData };
        let receiver = Receiver { id: chan.shared.share_id(), elem: PhantomData };
        (sender, receiver, chan)
    }

    /// Converts into the underlying [`VecDeque`] container.
    pub fn into_deque(self) -> (elems: VecDeque<T>)
        ensures
            elems@ == self@.elems,
    {
        self.shared.into_deque()
    }

    /// Returns the number of queued elements.
    ///
    /// This number *may* diverge from the channel's reported
    /// [capacity](Channel::capacity).
    /// This will occur, when capacity is decreased by [reserving](Channel::reserve)
    /// it without using it right away.
    pub fn len(&self) -> (len: usize)
        ensures
            len == self@.elems.len(),
    {
        self.shared.len()
    }

    /// Returns the maximum buffer capacity of the channel.
    ///
    /// This is the capacity initially specified when [creating](channel) the
    /// channel and remains constant.
    pub fn max_capacity(&self) -> (capacity: usize)
        ensures
            capacity == self@.extra.max_capacity,
    {
        self.shared.max_capacity()
    }

    /// Returns the current capacity of the channel.
    ///
    /// The capacity goes down when sending a value and goes up when receiving a
    /// value.
    /// When the capacity is zero, any subsequent sends will only resolve once
    /// sufficient capacity is available.
    pub fn capacity(&self) -> (capacity: usize)
        ensures
            capacity == self@.extra.semaphore.permits,
    {
        self.shared.capacity()
    }

    /// Returns the number of permits that waiting senders hold.
    pub fn outstanding_permits(&self) -> (permits: usize)
        ensures
            permits == self@.extra.semaphore.outstanding,
    {
        self.shared.outstanding_permits()
    }

    /// Closes the channel, ensuring that all subsequent sends will fail.
    pub fn close(&mut self)
        requires
            old(self).wf(),
        ensures
            final(self).wf(),
            final(self).id() == old(self).id(),
            final(self)@ == old(self)@.close(UNCOUNTED),
    {
        self.shared.close::<UNCOUNTED>();
    }

    /// Returns `true` if the channel is closed.
    pub fn is_closed(&self) -> (closed: bool)
        ensures
            closed == self@.mask.closed,
    {
        self.shared.is_closed::<UNCOUNTED>()
    }

    /// Returns `true` if the channel is empty.
    pub fn is_empty(&self) -> (empty: bool)
        ensures
            empty == (self@.elems.len() == 0),
    {
        self.shared.len() == 0
    }

    /// Receives an element through the channel.
    ///
    /// # Errors
    ///
    /// Fails, if the channel is [empty](TryRecvError::Empty) or
    /// [disconnected](TryRecvError::Disconnected).
    pub fn try_recv(&mut self) -> (result: Result<T, TryRecvError>)
        requires
            old(self).wf(),
        ensures
            final(self).wf(),
            final(self).id() == old(self).id(),
            result == old(self)@.recv_result(),
            final(self)@ == old(self)@.recv(),
    {
        self.shared.try_recv::<UNCOUNTED>()
    }

    /// Polls the channel, resolving if an element was received or the channel
    /// is closed but ignoring whether there are any remaining **Sender**(s) or
    /// not.
    ///
    /// Only the task that polled last is woken.
    pub fn poll_recv(&mut self, waker: Waker) -> (result: Poll<Option<T>>)
        requires
            old(self).wf(),
        ensures
            final(self).wf(),
            final(self).id() == old(self).id(),
            result == old(self)@.poll_result(),
            final(self)@ == old(self)@.poll_recv(waker),
    {
        self.shared.poll_recv::<UNCOUNTED>(waker)
    }

    /// Sends a value through the channel if there is sufficient capacity.
    ///
    /// # Errors
    ///
    /// Fails, if the queue is closed or there is no available capacity.
    pub fn try_send(&mut self, elem: T) -> (result: Result<(), TrySendError<T>>)
        requires
            old(self).wf(),
        ensures
            final(self).wf(),
            final(self).id() == old(self).id(),
            result == old(self)@.try_send_result(elem),
            final(self)@ == old(self)@.try_send(elem),
    {
        self.shared.try_send(elem)
    }

    /// Sends a value, potentially waiting until there is capacity.
    ///
    /// # Errors
    ///
    /// Polling the [`SendFuture`] fails, if the queue is closed.
    pub fn send(&mut self, elem: T) -> (future: SendFuture<T>)
        requires
            old(self).wf(),
        ensures
            final(self).wf(),
            final(self).id() == old(self).id(),
            future.id() == old(self).id(),
            future.is_pending(),
            future.elem() == elem,
            future.key() < usize::MAX,
            !old(self)@.has_sender(future.key()),
            final(self)@ == old(self)@.register(future.key()),
    {
        let acquire = self.shared.reserve();
        SendFuture { acquire: Some(acquire), elem: Some(elem) }
    }

    /// Attempts to reserve a slot in the channel without waiting, if none are
    /// available.
    ///
    /// The returned [`Permit`] can be used to immediately send a value to the
    /// channel at a later point.
    /// Dropping the permit without sending a value will return the capacity to
    /// the channel.
    ///
    /// # Errors
    ///
    /// Fails, if there are no available permits or the channel has been closed.
    pub fn try_reserve(&mut self) -> (result: Result<Permit<T>, TrySendError<()>>)
        requires
            old(self).wf(),
        ensures
            final(self).wf(),
            final(self).id() == old(self).id(),
            final(self)@ == old(self)@.try_reserve(),
            match old(self)@.try_reserve_result() {
                Ok(_) => result matches Ok(permit) && permit.id() == old(self).id(),
                Err(error) => result == Err::<Permit<T>, _>(error),
            },
    {
        match self.shared.try_reserve() {
            Ok(_) => Ok(Permit { id: self.shared.share_id(), elem: PhantomData }),
            Err(error) => Err(error),
        }
    }

    /// Reserves a slot in the channel, potentially waiting until one becomes
    /// available.
    ///
    /// The resulting [`Permit`] can be used to immediately send a value to the
    /// channel at a later point.
    /// Dropping the permit without sending a value will return the capacity to
    /// the channel.
    ///
    /// # Errors
    ///
    /// Polling the [`ReserveFuture`] fails, if the channel has been closed.
    pub fn reserve(&mut self) -> (future: ReserveFuture<T>)
        requires
            old(self).wf(),
        ensures
            final(self).wf(),
            final(self).id() == old(self).id(),
            future.id() == old(self).id(),
            future.is_pending(),
            future.key() < usize::MAX,
            !old(self)@.has_sender(future.key()),
            final(self)@ == old(self)@.register(future.key()),
    {
        let acquire = self.shared.reserve();
        ReserveFuture { acquire: Some(acquire), elem: PhantomData }
    }

    /// Takes the tasks that have been woken since they were last taken.
    pub fn take_wakes(&mut self) -> (wakes: Vec<Waker>)
        requires
            old(self).wf(),
        ensures
            final(self).wf(),
            final(self).id() == old(self).id(),
            wakes@ == old(self)@.wakes + old(self)@.extra.semaphore.wakes,
            final(self)@ == old(self)@.without_wakes().with_semaphore(
                SemaphoreView { wakes: Seq::empty(), ..old(self)@.extra.semaphore },
            ),
    {
        let mut wakes = self.shared.take_receiver_wakes();
        let mut senders = self.shared.take_sender_wakes();
        wakes.append(&mut senders);
        wakes
    }
}

/// A handle for sending elements through a bounded channel that was
/// [consumed](Channel::into_split) for splitting.
pub struct Sender<T> {
    id: InstanceId,
    elem: PhantomData<T>,
}

impl<T> Sender<T> {
    /// The identity of the channel that the handle belongs to.
    pub closed spec fn id(&self) -> usize {
        self.id@
    }

    /// Returns the number of queued elements.
    pub fn len(&self, chan: &Channel<T>) -> (len: usize)
        requires
            self.id() == chan.id(),
        ensures
            len == chan@.elems.len(),
    {
        chan.shared.len()
    }

    /// Returns the maximum buffer capacity of the channel.
    ///
    /// This is the capacity initially specified when [creating](channel) the
    /// channel and remains constant.
    pub fn max_capacity(&self, chan: &Channel<T>) -> (capacity: usize)
        requires
            self.id() == chan.id(),
        ensures
            capacity == chan@.extra.max_capacity,
    {
        chan.shared.max_capacity()
    }

    /// Returns the current capacity of the channel.
    ///
    /// The capacity goes down when sending a value and goes up when receiving a
    /// value.
    /// When the capacity is zero, any subsequent sends will only resolve once
    /// sufficient capacity is available.
    pub fn capacity(&self, chan: &Channel<T>) -> (capacity: usize)
        requires
            self.id() == chan.id(),
        ensures
            capacity == chan@.extra.semaphore.permits,
    {
        chan.shared.capacity()
    }

    /// Returns `true` if the channel is closed.
    pub fn is_closed(&self, chan: &Channel<T>) -> (closed: bool)
        requires
            self.id() == chan.id(),
        ensures
            closed == chan@.mask.closed,
    {
        chan.shared.is_closed::<COUNTED>()
    }

    /// Returns `true` if the channel is empty.
    pub fn is_empty(&self, chan: &Channel<T>) -> (empty: bool)
        requires
            self.id() == chan.id(),
        ensures
            empty == (chan@.elems.len() == 0),
    {
        chan.shared.len() == 0
    }

    /// Returns `true` if `self` and `other` are handles for the same channel
    /// instance.
    pub fn same_channel(&self, other: &Self) -> (result: bool)
        ensures
            result == (self.id() == other.id()),
    {
        self.id.same(&other.id)
    }

    /// Sends a value through the channel if there is sufficient capacity.
    ///
    /// # Errors
    ///
    /// Fails, if the queue is closed or there is no available capacity.
    pub fn try_send(&self, chan: &mut Channel<T>, elem: T) -> (result: Result<(), TrySendError<T>>)
        requires
            old(chan).wf(),
            self.id() == old(chan).id(),
        ensures
            final(chan).wf(),
            final(chan).id() == old(chan).id(),
            result == old(chan)@.try_send_result(elem),
            final(chan)@ == old(chan)@.try_send(elem),
    {
        chan.shared.try_send(elem)
    }

    /// Sends a value through the channel, potentially waiting until there is
    /// sufficient capacity.
    ///
    /// # Errors
    ///
    /// Polling the [`SendFuture`] fails, if the queue is closed.
    pub fn send(&self, chan: &mut Channel<T>, elem: T) -> (future: SendFuture<T>)
        requires
            old(chan).wf(),
            self.id() == old(chan).id(),
        ensures
            final(chan).wf(),
            final(chan).id() == old(chan).id(),
            future.id() == old(chan).id(),
            future.is_pending(),
            future.elem() == elem,
            future.key() < usize::MAX,
            !old(chan)@.has_sender(future.key()),
            final(chan)@ == old(chan)@.register(future.key()),
    {
        chan.send(elem)
    }

    /// Attempts to reserve a slot in the channel without waiting, if none are
    /// available.
    ///
    /// The returned [`Permit`] can be used to immediately send a value to the
    /// channel at a later point.
    /// Dropping the permit without sending a value will return the capacity to
    /// the channel.
    ///
    /// # Errors
    ///
    /// Fails, if there are no available permits or the channel has been closed.
    pub fn try_reserve(&self, chan: &mut Channel<T>) -> (result: Result<
        Permit<T>,
        TrySendError<()>,
    >)
        requires
            old(chan).wf(),
            self.id() == old(chan).id(),
        ensures
            final(chan).wf(),
            final(chan).id() == old(chan).id(),
            final(chan)@ == old(chan)@.try_reserve(),
            match old(chan)@.try_reserve_result() {
                Ok(_) => result matches Ok(permit) && permit.id() == old(chan).id(),
                Err(error) => result == Err::<Permit<T>, _>(error),
            },
    {
        chan.try_reserve()
    }

    /// Attempts to reserve a slot in the channel without waiting, if none are
    /// available.
    ///
    /// This moves the sender *by value* and returns an *owned* permit that can
    /// be used to immediately send a value to the channel at a later point.
    /// Dropping the permit without sending a value will return the capacity to
    /// the channel.
    ///
    /// # Errors
    ///
    /// Fails, if there are no available permits or the channel has been closed.
    pub fn try_reserve_owned(self, chan: &mut Channel<T>) -> (result: Result<
        OwnedPermit<T>,
        TrySendError<Self>,
    >)
        requires
            old(chan).wf(),
            self.id() == old(chan).id(),
        ensures
            final(chan).wf(),
            final(chan).id() == old(chan).id(),
            final(chan)@ == old(chan)@.try_reserve(),
            match old(chan)@.extra.semaphore.refusal(1) {
                Some(error) => result == Err::<OwnedPermit<T>, _>(
                    TrySendError::refused(error, self),
                ),
                None => result matches Ok(permit) && permit.id() == old(chan).id(),
            },
    {
        match chan.shared.try_reserve() {
            Ok(_) => Ok(OwnedPermit { sender: self }),
            Err(error) => Err(error.set(self)),
        }
    }

    /// Reserves a slot in the channel, potentially waiting until one becomes
    /// available.
    ///
    /// The resulting [`Permit`] can be used to immediately send a value to the
    /// channel at a later point.
    /// Dropping the permit without sending a value will return the capacity to
    /// the channel.
    ///
    /// # Errors
    ///
    /// Polling the [`ReserveFuture`] fails, if the channel has been closed.
    pub fn reserve(&self, chan: &mut Channel<T>) -> (future: ReserveFuture<T>)
        requires
            old(chan).wf(),
            self.id() == old(chan).id(),
        ensures
            final(chan).wf(),
            final(chan).id() == old(chan).id(),
            future.id() == old(chan).id(),
            future.is_pending(),
            future.key() < usize::MAX,
            !old(chan)@.has_sender(future.key()),
            final(chan)@ == old(chan)@.register(future.key()),
    {
        chan.reserve()
    }

    /// Reserves a slot in the channel, potentially waiting until one becomes
    /// available.
    ///
    /// This moves the sender *by value* and resolves to an *owned* permit that
    /// can be used to immediately send a value to the channel at a later point.
    /// Dropping the permit without sending a value will return the capacity to
    /// the channel.
    ///
    /// # Errors
    ///
    /// Polling the [`ReserveOwnedFuture`] fails, if the channel has been
    /// closed.
    pub fn reserve_owned(self, chan: &mut Channel<T>) -> (future: ReserveOwnedFuture<T>)
        requires
            old(chan).wf(),
            self.id() == old(chan).id(),
        ensures
            final(chan).wf(),
            final(chan).id() == old(chan).id(),
            future.id() == old(chan).id(),
            future.is_pending(),
            future.sender() == self,
            future.key() < usize::MAX,
            !old(chan)@.has_sender(future.key()),
            final(chan)@ == old(chan)@.register(future.key()),
    {
        let acquire = chan.shared.reserve();
        ReserveOwnedFuture { acquire: Some(acquire), sender: Some(self) }
    }

    /// Returns another handle for the same channel, which counts as one more
    /// sender.
    pub fn clone(&self, chan: &mut Channel<T>) -> (sender: Self)
        requires
            old(chan).wf(),
            self.id() == old(chan).id(),
            old(chan)@.mask.has_room(),
        ensures
            final(chan).wf(),
            final(chan).id() == old(chan).id(),
            sender.id() == self.id(),
            final(chan)@ == old(chan)@.add_sender(),
    {
        chan.shared.increase_sender_count();
        Sender { id: self.id.share(), elem: PhantomData }
    }

    /// Drops the handle, which closes the channel if it was the last sender.
    pub fn drop(self, chan: &mut Channel<T>)
        requires
            old(chan).wf(),
            self.id() == old(chan).id(),
            old(chan)@.mask.senders >= 1,
        ensures
            final(chan).wf(),
            final(chan).id() == old(chan).id(),
            final(chan)@ == old(chan)@.remove_sender(),
    {
        chan.shared.decrease_sender_count();
    }
}

/// A handle for sending elements through a split bounded
/// [`Channel`].
pub struct SenderRef<T> {
    id: InstanceId,
    elem: PhantomData<T>,
}

impl<T> SenderRef<T> {
    /// The identity of the channel that the handle belongs to.
    pub closed spec fn id(&self) -> usize {
        self.id@
    }

    /// Returns the number of queued elements.
    pub fn len(&self, chan: &Channel<T>) -> (len: usize)
        requires
            self.id() == chan.id(),
        ensures
            len == chan@.elems.len(),
    {
        chan.shared.len()
    }

    /// Returns the maximum buffer capacity of the channel.
    ///
    /// This is the capacity initially specified when [creating](channel) the
    /// channel and remains constant.
    pub fn max_capacity(&self, chan: &Channel<T>) -> (capacity: usize)
        requires
            self.id() == chan.id(),
        ensures
            capacity == chan@.extra.max_capacity,
    {
        chan.shared.max_capacity()
    }

    /// Returns the current capacity of the channel.
    ///
    /// The capacity goes down when sending a value and goes up when receiving a
    /// value.
    /// When the capacity is zero, any subsequent sends will only resolve once
    /// sufficient capacity is available.
    pub fn capacity(&self, chan: &Channel<T>) -> (capacity: usize)
        requires
            self.id() == chan.id(),
        ensures
            capacity == chan@.extra.semaphore.permits,
    {
        chan.shared.capacity()
    }

    /// Returns `true` if the channel is closed.
    pub fn is_closed(&self, chan: &Channel<T>) -> (closed: bool)
        requires
            self.id() == chan.id(),
        ensures
            closed == chan@.mask.closed,
    {
        chan.shared.is_closed::<COUNTED>()
    }

    /// Returns `true` if the channel is empty.
    pub fn is_empty(&self, chan: &Channel<T>) -> (empty: bool)
        requires
            self.id() == chan.id(),
        ensures
            empty == (chan@.elems.len() == 0),
    {
        chan.shared.len() == 0
    }

    /// Returns `true` if `self` and `other` are handles for the same channel
    /// instance.
    pub fn same_channel(&self, other: &Self) -> (result: bool)
        ensures
            result == (self.id() == other.id()),
    {
        self.id.same(&other.id)
    }

    /// Sends a value through the channel if there is sufficient capacity.
    ///
    /// # Errors
    ///
    /// Fails, if the queue is closed or there is no available capacity.
    pub fn try_send(&self, chan: &mut Channel<T>, elem: T) -> (result: Result<(), TrySendError<T>>)
        requires
            old(chan).wf(),
            self.id() == old(chan).id(),
        ensures
            final(chan).wf(),
            final(chan).id() == old(chan).id(),
            result == old(chan)@.try_send_result(elem),
            final(chan)@ == old(chan)@.try_send(elem),
    {
        chan.shared.try_send(elem)
    }

    /// Sends a value through the channel, potentially waiting until there is
    /// sufficient capacity.
    ///
    /// # Errors
    ///
    /// Polling the [`SendFuture`] fails, if the queue is closed.
    pub fn send(&self, chan: &mut Channel<T>, elem: T) -> (future: SendFuture<T>)
        requires
            old(chan).wf(),
            self.id() == old(chan).id(),
        ensures
            final(chan).wf(),
            final(chan).id() == old(chan).id(),
            future.id() == old(chan).id(),
            future.is_pending(),
            future.elem() == elem,
            future.key() < usize::MAX,
            !old(chan)@.has_sender(future.key()),
            final(chan)@ == old(chan)@.register(future.key()),
    {
        chan.send(elem)
    }

    /// Attempts to reserve a slot in the channel without waiting, if none are
    /// available.
    ///
    /// The returned [`Permit`] can be used to immediately send a value to the
    /// channel at a later point.
    /// Dropping the permit without sending a value will return the capacity to
    /// the channel.
    ///
    /// # Errors
    ///
    /// Fails, if there are no available permits or the channel has been closed.
    pub fn try_reserve(&self, chan: &mut Channel<T>) -> (result: Result<
        Permit<T>,
        TrySendError<()>,
    >)
        requires
            old(chan).wf(),
            self.id() == old(chan).id(),
        ensures
            final(chan).wf(),
            final(chan).id() == old(chan).id(),
            final(chan)@ == old(chan)@.try_reserve(),
            match old(chan)@.try_reserve_result() {
                Ok(_) => result matches Ok(permit) && permit.id() == old(chan).id(),
                Err(error) => result == Err::<Permit<T>, _>(error),
            },
    {
        chan.try_reserve()
    }

    /// Reserves a slot in the channel, potentially waiting until one becomes
    /// available.
    ///
    /// The resulting [`Permit`] can be used to immediately send a value to the
    /// channel at a later point.
    /// Dropping the permit without sending a value will return the capacity to
    /// the channel.
    ///
    /// # Errors
    ///
    /// Polling the [`ReserveFuture`] fails, if the channel has been closed.
    pub fn reserve(&self, chan: &mut Channel<T>) -> (future: ReserveFuture<T>)
        requires
            old(chan).wf(),
            self.id() == old(chan).id(),
        ensures
            final(chan).wf(),
            final(chan).id() == old(chan).id(),
            future.id() == old(chan).id(),
            future.is_pending(),
            future.key() < usize::MAX,
            !old(chan)@.has_sender(future.key()),
            final(chan)@ == old(chan)@.register(future.key()),
    {
        chan.reserve()
    }

    /// Returns another handle for the same channel, which counts as one more
    /// sender.
    pub fn clone(&self, chan: &mut Channel<T>) -> (sender: Self)
        requires
            old(chan).wf(),
            self.id() == old(chan).id(),
            old(chan)@.mask.has_room(),
        ensures
            final(chan).wf(),
            final(chan).id() == old(chan).id(),
            sender.id() == self.id(),
            final(chan)@ == old(chan)@.add_sender(),
    {
        chan.shared.increase_sender_count();
        SenderRef { id: self.id.share(), elem: PhantomData }
    }

    /// Drops the handle, which closes the channel if it was the last sender.
    pub fn drop(self, chan: &mut Channel<T>)
        requires
            old(chan).wf(),
            self.id() == old(chan).id(),
            old(chan)@.mask.senders >= 1,
        ensures
            final(chan).wf(),
            final(chan).id() == old(chan).id(),
            final(chan)@ == old(chan)@.remove_sender(),
    {
        chan.shared.decrease_sender_count();
    }
}

/// A handle for receiving elements through a bounded channel that was
/// [consumed](Channel::into_split) for splitting.
pub struct Receiver<T> {
    id: InstanceId,
    elem: PhantomData<T>,
}

impl<T> Receiver<T> {
    /// The identity of the channel that the handle belongs to.
    pub closed spec fn id(&self) -> usize {
        self.id@
    }

    /// Closes the channel, ensuring that all subsequent sends will fail.
    pub fn close(&mut self, chan: &mut Channel<T>)
        requires
            old(chan).wf(),
            old(self).id() == old(chan).id(),
        ensures
            final(chan).wf(),
            final(chan).id() == old(chan).id(),
            final(self).id() == old(self).id(),
            final(chan)@ == old(chan)@.close(COUNTED),
    {
        chan.shared.close::<COUNTED>();
    }

    /// Returns the number of queued elements.
    pub fn len(&self, chan: &Channel<T>) -> (len: usize)
        requires
            self.id() == chan.id(),
        ensures
            len == chan@.elems.len(),
    {
        chan.shared.len()
    }

    /// Returns the maximum buffer capacity of the channel.
    ///
    /// This is the capacity initially specified when [creating](channel) the
    /// channel and remains constant.
    pub fn max_capacity(&self, chan: &Channel<T>) -> (capacity: usize)
        requires
            self.id() == chan.id(),
        ensures
            capacity == chan@.extra.max_capacity,
    {
        chan.shared.max_capacity()
    }

    /// Returns the current capacity of the channel.
    ///
    /// The capacity goes down when sending a value and goes up when receiving a
    /// value.
    /// When the capacity is zero, any subsequent sends will only resolve once
    /// sufficient capacity is available.
    pub fn capacity(&self, chan: &Channel<T>) -> (capacity: usize)
        requires
            self.id() == chan.id(),
        ensures
            capacity == chan@.extra.semaphore.permits,
    {
        chan.shared.capacity()
    }

    /// Returns `true` if the channel is closed.
    pub fn is_closed(&self, chan: &Channel<T>) -> (closed: bool)
        requires
            self.id() == chan.id(),
        ensures
            closed == chan@.mask.closed,
    {
        chan.shared.is_closed::<COUNTED>()
    }

    /// Returns `true` if the channel is empty.
    pub fn is_empty(&self, chan: &Channel<T>) -> (empty: bool)
        requires
            self.id() == chan.id(),
        ensures
            empty == (chan@.elems.len() == 0),
    {
        chan.shared.len() == 0
    }

    /// Receives an element through the channel.
    ///
    /// # Errors
    ///
    /// Fails, if the channel is [empty](TryRecvError::Empty) or
    /// [disconnected](TryRecvError::Disconnected).
    pub fn try_recv(&mut self, chan: &mut Channel<T>) -> (result: Result<T, TryRecvError>)
        requires
            old(chan).wf(),
            old(self).id() == old(chan).id(),
        ensures
            final(chan).wf(),
            final(chan).id() == old(chan).id(),
            final(self).id() == old(self).id(),
            result == old(chan)@.recv_result(),
            final(chan)@ == old(chan)@.recv(),
    {
        chan.shared.try_recv::<COUNTED>()
    }

    /// Polls the channel, resolving if an element was received or the channel
    /// is closed and no capacity is reserved.
    pub fn poll_recv(&mut self, chan: &mut Channel<T>, waker: Waker) -> (result: Poll<Option<T>>)
        requires
            old(chan).wf(),
            old(self).id() == old(chan).id(),
        ensures
            final(chan).wf(),
            final(chan).id() == old(chan).id(),
            final(self).id() == old(self).id(),
            result == old(chan)@.poll_result(),
            final(chan)@ == old(chan)@.poll_recv(waker),
    {
        chan.shared.poll_recv::<COUNTED>(waker)
    }

    /// Drops the handle, which closes the channel.
    pub fn drop(self, chan: &mut Channel<T>)
        requires
            old(chan).wf(),
            self.id() == old(chan).id(),
        ensures
            final(chan).wf(),
            final(chan).id() == old(chan).id(),
            final(chan)@ == old(chan)@.close(COUNTED),
    {
        chan.shared.close::<COUNTED>();
    }
}

/// A handle for receiving elements through a split bounded
/// [`Channel`].
pub struct ReceiverRef<T> {
    id: InstanceId,
    elem: PhantomData<T>,
}

impl<T> ReceiverRef<T> {
    /// The identity of the channel that the handle belongs to.
    pub closed spec fn id(&self) -> usize {
        self.id@
    }

    /// Closes the channel, ensuring that all subsequent sends will fail.
    pub fn close(&mut self, chan: &mut Channel<T>)
        requires
            old(chan).wf(),
            old(self).id() == old(chan).id(),
        ensures
            final(chan).wf(),
            final(chan).id() == old(chan).id(),
            final(self).id() == old(self).id(),
            final(chan)@ == old(chan)@.close(COUNTED),
    {
        chan.shared.close::<COUNTED>();
    }

    /// Returns the number of queued elements.
    pub fn len(&self, chan: &Channel<T>) -> (len: usize)
        requires
            self.id() == chan.id(),
        ensures
            len == chan@.elems.len(),
    {
        chan.shared.len()
    }

    /// Returns the maximum buffer capacity of the channel.
    ///
    /// This is the capacity initially specified when [creating](channel) the
    /// channel and remains constant.
    pub fn max_capacity(&self, chan: &Channel<T>) -> (capacity: usize)
        requires
            self.id() == chan.id(),
        ensures
            capacity == chan@.extra.max_capacity,
    {
        chan.shared.max_capacity()
    }

    /// Returns the current capacity of the channel.
    ///
    /// The capacity goes down when sending a value and goes up when receiving a
    /// value.
    /// When the capacity is zero, any subsequent sends will only resolve once
    /// sufficient capacity is available.
    pub fn capacity(&self, chan: &Channel<T>) -> (capacity: usize)
        requires
            self.id() == chan.id(),
        ensures
            capacity == chan@.extra.semaphore.permits,
    {
        chan.shared.capacity()
    }

    /// Returns `true` if the channel is closed.
    pub fn is_closed(&self, chan: &Channel<T>) -> (closed: bool)
        requires
            self.id() == chan.id(),
        ensures
            closed == chan@.mask.closed,
    {
        chan.shared.is_closed::<COUNTED>()
    }

    /// Returns `true` if the channel is empty.
    pub fn is_empty(&self, chan: &Channel<T>) -> (empty: bool)
        requires
            self.id() == chan.id(),
        ensures
            empty == (chan@.elems.len() == 0),
    {
        chan.shared.len() == 0
    }

    /// Receives an element through the channel.
    ///
    /// # Errors
    ///
    /// Fails, if the channel is [empty](TryRecvError::Empty) or
    /// [disconnected](TryRecvError::Disconnected).
    pub fn try_recv(&mut self, chan: &mut Channel<T>) -> (result: Result<T, TryRecvError>)
        requires
            old(chan).wf(),
            old(self).id() == old(chan).id(),
        ensures
            final(chan).wf(),
            final(chan).id() == old(chan).id(),
            final(self).id() == old(self).id(),
            result == old(chan)@.recv_result(),
            final(chan)@ == old(chan)@.recv(),
    {
        chan.shared.try_recv::<COUNTED>()
    }

    /// Polls the channel, resolving if an element was received or the channel
    /// is closed and no capacity is reserved.
    pub fn poll_recv(&mut self, chan: &mut Channel<T>, waker: Waker) -> (result: Poll<Option<T>>)
        requires
            old(chan).wf(),
            old(self).id() == old(chan).id(),
        ensures
            final(chan).wf(),
            final(chan).id() == old(chan).id(),
            final(self).id() == old(self).id(),
            result == old(chan)@.poll_result(),
            final(chan)@ == old(chan)@.poll_recv(waker),
    {
        chan.shared.poll_recv::<COUNTED>(waker)
    }

    /// Drops the handle, which closes the channel.
    pub fn drop(self, chan: &mut Channel<T>)
        requires
            old(chan).wf(),
            self.id() == old(chan).id(),
        ensures
            final(chan).wf(),
            final(chan).id() == old(chan).id(),
            final(chan)@ == old(chan)@.close(COUNTED),
    {
        chan.shared.close::<COUNTED>();
    }
}

/// A permit to send one value into the channel.
pub struct Permit<T> {
    id: InstanceId,
    elem: PhantomData<T>,
}

impl<T> Permit<T> {
    /// The identity of the channel that the permit belongs to.
    pub closed spec fn id(&self) -> usize {
        self.id@
    }

    /// Sends a value using the reserved capacity.
    ///
    /// Since the capacity has been reserved beforehand, the value is sent
    /// immediately and the permit is consumed.
    /// This will succeed even if the channel has been closed.
    pub fn send(self, chan: &mut Channel<T>, elem: T)
        requires
            old(chan).wf(),
            self.id() == old(chan).id(),
        ensures
            final(chan).wf(),
            final(chan).id() == old(chan).id(),
            final(chan)@ == old(chan)@.push(elem),
    {
        chan.shared.unbounded_send::<false>(elem);
    }

    /// Drops the permit, which returns the capacity to the channel.
    pub fn drop(self, chan: &mut Channel<T>)
        requires
            old(chan).wf(),
            self.id() == old(chan).id(),
        ensures
            final(chan).wf(),
            final(chan).id() == old(chan).id(),
            final(chan)@ == old(chan)@.unreserve(),
    {
        chan.shared.unreserve();
    }
}

/// An owned permit to send one value into the channel.
pub struct OwnedPermit<T> {
    sender: Sender<T>,
}

impl<T> OwnedPermit<T> {
    /// The identity of the channel that the permit belongs to.
    pub closed spec fn id(&self) -> usize {
        self.sender.id()
    }

    /// Sends a value using the reserved capacity.
    ///
    /// Since the capacity has been reserved beforehand, the value is sent
    /// immediately and the permit is consumed.
    /// This will succeed even if the channel has been closed.
    ///
    /// Unlike [`Permit::send`], this method returns the [`Sender`] from which
    /// the [`OwnedPermit`] was reserved.
    pub fn send(self, chan: &mut Channel<T>, elem: T) -> (sender: Sender<T>)
        requires
            old(chan).wf(),
            self.id() == old(chan).id(),
        ensures
            final(chan).wf(),
            final(chan).id() == old(chan).id(),
            sender.id() == old(chan).id(),
            final(chan)@ == old(chan)@.push(elem),
    {
        chan.shared.unbounded_send::<false>(elem);
        self.sender
    }

    /// Drops the permit, which returns the capacity to the channel and drops
    /// the [`Sender`].
    pub fn drop(self, chan: &mut Channel<T>)
        requires
            old(chan).wf(),
            self.id() == old(chan).id(),
            old(chan)@.mask.senders >= 1,
        ensures
            final(chan).wf(),
            final(chan).id() == old(chan).id(),
            final(chan)@ == old(chan)@.unreserve().remove_sender(),
    {
        chan.shared.unreserve();
        self.sender.drop(chan);
    }
}

/// The pending operation of sending a value.
pub struct SendFuture<T> {
    acquire: Option<Acquire>,
    elem: Option<T>,
}

impl<T> SendFuture<T> {
    /// The identity of the channel that the pending operation belongs to.
    pub closed spec fn id(&self) -> usize {
        self.acquire->0.id()
    }

    /// Whether the operation has not been resolved yet.
    pub closed spec fn is_pending(&self) -> bool {
        self.acquire is Some && self.elem is Some
    }

    /// The key of the pending operation's waiter.
    pub closed spec fn key(&self) -> usize {
        self.acquire->0@
    }

    /// The value that the pending operation sends.
    pub closed spec fn elem(&self) -> T {
        self.elem->0
    }

    /// Sends the value once there is capacity; until then the task `waker` is
    /// woken when polling again makes sense.
    ///
    /// # Errors
    ///
    /// Fails and returns the value, if the channel is closed.
    pub fn poll(&mut self, chan: &mut Channel<T>, waker: Waker) -> (result: Poll<
        Result<(), SendError<T>>,
    >)
        requires
            old(chan).wf(),
            old(self).id() == old(chan).id(),
            old(self).is_pending(),
            old(chan)@.has_sender(old(self).key()),
        ensures
            final(chan).wf(),
            final(chan).id() == old(chan).id(),
            final(chan)@ == old(chan)@.poll_send(old(self).key(), old(self).elem(), waker),
            match old(chan)@.reserve_outcome(old(self).key()) {
                Acquisition::Acquired(_) => {
                    &&& result == Poll::Ready(Ok::<(), SendError<T>>(()))
                    &&& !final(self).is_pending()
                },
                Acquisition::Closed => {
                    &&& result == Poll::Ready(Err::<(), SendError<T>>(SendError(old(self).elem())))
                    &&& !final(self).is_pending()
                },
                Acquisition::Pending => {
                    &&& result is Pending
                    &&& final(self).is_pending()
                    &&& final(self).id() == old(self).id()
                    &&& final(self).key() == old(self).key()
                    &&& final(self).elem() == old(self).elem()
                },
            },
    {
        match chan.shared.poll_reserve(&mut self.acquire, waker) {
            Poll::Ready(Ok(_)) => {
                let elem = self.elem.take().unwrap();
                chan.shared.unbounded_send::<false>(elem);
                Poll::Ready(Ok(()))
            },
            Poll::Ready(Err(_)) => {
                let elem = self.elem.take().unwrap();
                Poll::Ready(Err(SendError(elem)))
            },
            Poll::Pending => Poll::Pending,
        }
    }

    /// Drops the operation; the capacity that it may already have got goes to
    /// the next sender.
    pub fn drop(self, chan: &mut Channel<T>)
        requires
            old(chan).wf(),
            self.is_pending() ==> self.id() == old(chan).id() && old(chan)@.has_sender(self.key()),
        ensures
            final(chan).wf(),
            final(chan).id() == old(chan).id(),
            self.is_pending() ==> final(chan)@ == old(chan)@.cancel(self.key()),
            !self.is_pending() ==> final(chan)@ == old(chan)@,
    {
        if let (Some(acquire), Some(_)) = (self.acquire, self.elem) {
            chan.shared.cancel(acquire);
        }
    }
}

/// The pending operation of reserving capacity for one value.
pub struct ReserveFuture<T> {
    acquire: Option<Acquire>,
    elem: PhantomData<T>,
}

impl<T> ReserveFuture<T> {
    /// The identity of the channel that the pending operation belongs to.
    pub closed spec fn id(&self) -> usize {
        self.acquire->0.id()
    }

    /// Whether the operation has not been resolved yet.
    pub closed spec fn is_pending(&self) -> bool {
        self.acquire is Some
    }

    /// The key of the pending operation's waiter.
    pub closed spec fn key(&self) -> usize {
        self.acquire->0@
    }

    /// Reserves capacity once there is any; until then the task `waker` is
    /// woken when polling again makes sense.
    ///
    /// # Errors
    ///
    /// Fails, if the channel is closed.
    pub fn poll(&mut self, chan: &mut Channel<T>, waker: Waker) -> (result: Poll<
        Result<Permit<T>, SendError<()>>,
    >)
        requires
            old(chan).wf(),
            old(self).id() == old(chan).id(),
            old(self).is_pending(),
            old(chan)@.has_sender(old(self).key()),
        ensures
            final(chan).wf(),
            final(chan).id() == old(chan).id(),
            final(chan)@ == old(chan)@.poll_reserve(old(self).key(), waker),
            match old(chan)@.reserve_outcome(old(self).key()) {
                Acquisition::Acquired(_) => {
                    &&& result matches Poll::Ready(Ok(permit)) && permit.id() == old(chan).id()
                    &&& !final(self).is_pending()
                },
                Acquisition::Closed => {
                    &&& result == Poll::Ready(Err::<Permit<T>, SendError<()>>(SendError(())))
                    &&& !final(self).is_pending()
                },
                Acquisition::Pending => {
                    &&& result is Pending
                    &&& final(self).is_pending()
                    &&& final(self).id() == old(self).id()
                    &&& final(self).key() == old(self).key()
                },
            },
    {
        match chan.shared.poll_reserve(&mut self.acquire, waker) {
            Poll::Ready(Ok(_)) => Poll::Ready(
                Ok(Permit { id: chan.shared.share_id(), elem: PhantomData }),
            ),
            Poll::Ready(Err(error)) => Poll::Ready(Err(error)),
            Poll::Pending => Poll::Pending,
        }
    }

    /// Drops the operation; the capacity that it may already have got goes to
    /// the next sender.
    pub fn drop(self, chan: &mut Channel<T>)
        requires
            old(chan).wf(),
            self.is_pending() ==> self.id() == old(chan).id() && old(chan)@.has_sender(self.key()),
        ensures
            final(chan).wf(),
            final(chan).id() == old(chan).id(),
            self.is_pending() ==> final(chan)@ == old(chan)@.cancel(self.key()),
            !self.is_pending() ==> final(chan)@ == old(chan)@,
    {
        if let Some(acquire) = self.acquire {
            chan.shared.cancel(acquire);
        }
    }
}

/// The pending operation of reserving capacity for one value that holds on to
/// the [`Sender`].
pub struct ReserveOwnedFuture<T> {
    acquire: Option<Acquire>,
    sender: Option<Sender<T>>,
}

impl<T> ReserveOwnedFuture<T> {
    /// The identity of the channel that the pending operation belongs to.
    pub closed spec fn id(&self) -> usize {
        self.acquire->0.id()
    }

    /// Whether the operation has not been resolved yet.
    pub closed spec fn is_pending(&self) -> bool {
        self.acquire is Some && self.sender is Some
    }

    /// The key of the pending operation's waiter.
    pub closed spec fn key(&self) -> usize {
        self.acquire->0@
    }

    /// The sender that the pending operation holds on to.
    pub closed spec fn sender(&self) -> Sender<T> {
        self.sender->0
    }

    /// Reserves capacity once there is any; until then the task `waker` is
    /// woken when polling again makes sense.
    ///
    /// # Errors
    ///
    /// Fails and returns the sender, if the channel is closed.
    pub fn poll(&mut self, chan: &mut Channel<T>, waker: Waker) -> (result: Poll<
        Result<OwnedPermit<T>, SendError<Sender<T>>>,
    >)
        requires
            old(chan).wf(),
            old(self).is_pending(),
            old(self).id() == old(chan).id(),
            old(self).sender().id() == old(chan).id(),
            old(chan)@.has_sender(old(self).key()),
        ensures
            final(chan).wf(),
            final(chan).id() == old(chan).id(),
            final(chan)@ == old(chan)@.poll_reserve(old(self).key(), waker),
            match old(chan)@.reserve_outcome(old(self).key()) {
                Acquisition::Acquired(_) => {
                    &&& result matches Poll::Ready(Ok(permit)) && permit.id() == old(chan).id()
                    &&& !final(self).is_pending()
                },
                Acquisition::Closed => {
                    &&& result == Poll::Ready(
                        Err::<OwnedPermit<T>, SendError<Sender<T>>>(SendError(old(self).sender())),
                    )
                    &&& !final(self).is_pending()
                },
                Acquisition::Pending => {
                    &&& result is Pending
                    &&& final(self).is_pending()
                    &&& final(self).id() == old(self).id()
                    &&& final(self).key() == old(self).key()
                    &&& final(self).sender() == old(self).sender()
                },
            },
    {
        match chan.shared.poll_reserve(&mut self.acquire, waker) {
            Poll::Ready(Ok(_)) => {
                let sender = self.sender.take().unwrap();
                Poll::Ready(Ok(OwnedPermit { sender }))
            },
            Poll::Ready(Err(_)) => {
                let sender = self.sender.take().unwrap();
                Poll::Ready(Err(SendError(sender)))
            },
            Poll::Pending => Poll::Pending,
        }
    }

    /// Drops the operation and the sender; the capacity that it may already
    /// have got goes to the next sender.
    pub fn drop(self, chan: &mut Channel<T>)
        requires
            old(chan).wf(),
            self.is_pending() ==> {
                &&& self.id() == old(chan).id()
                &&& self.sender().id() == old(chan).id()
                &&& old(chan)@.mask.senders >= 1
                &&& old(chan)@.has_sender(self.key())
            },
        ensures
            final(chan).wf(),
            final(chan).id() == old(chan).id(),
            self.is_pending() ==> final(chan)@ == old(chan)@.cancel(self.key()).remove_sender(),
            !self.is_pending() ==> final(chan)@ == old(chan)@,
    {
        if let (Some(acquire), Some(sender)) = (self.acquire, self.sender) {
            chan.shared.cancel(acquire);
            sender.drop(chan);
        }
    }
}

} // verus!

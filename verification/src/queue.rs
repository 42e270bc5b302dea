//! The queue of elements that all channel kinds share.

use crate::bound::{BoundState, BoundedState, UnboundedState};
use crate::error::{SendError, TryRecvError, TrySendError};
use crate::identity::InstanceId;
use crate::mask::{Mask, MaskView, COUNTED};
use crate::permits::{Acquisition, SemaphoreView};
use crate::semaphore::{Acquire, Semaphore};
use crate::task::{Poll, Waker};
use std::collections::VecDeque;
use vstd::prelude::*;

verus! {

/// The number of received elements after which the queue may be shrunk.
const SHRINK_INTERVAL: usize = 4096;

/// What a [`Queue`] stores.
pub struct QueueView<T, E> {
    /// The closed flag and the number of senders.
    pub mask: MaskView,
    /// The queued elements, from the first to the last one sent.
    pub elems: Seq<T>,
    /// The task of the receiver that waits for an element.
    pub waker: Option<Waker>,
    /// The receiver's wakes that were not taken yet.
    pub wakes: Seq<Waker>,
    /// The state of a bounded or unbounded queue.
    pub extra: E,
}

impl<T, E: BoundState> QueueView<T, E> {
    /// The state of a new queue.
    pub open spec fn fresh(elems: Seq<T>, extra: E) -> Self {
        QueueView {
            mask: MaskView { closed: false, senders: 0 },
            elems,
            waker: None,
            wakes: Seq::empty(),
            extra,
        }
    }

    /// The state after queueing `elem` and notifying the receiver.
    pub open spec fn push(self, elem: T) -> Self {
        QueueView {
            elems: self.elems.push(elem),
            wakes: self.wakes + crate::task::wakes_of(self.waker),
            ..self
        }
    }

    /// The result of an attempt to receive an element.
    ///
    /// Without elements the queue is disconnected, if it is closed and no
    /// element can be sent with capacity that has been reserved.
    pub open spec fn recv_result(self) -> Result<T, TryRecvError> {
        if self.elems.len() > 0 {
            Ok(self.elems[0])
        } else if self.extra.idle() && self.mask.closed {
            Err(TryRecvError::Disconnected)
        } else {
            Err(TryRecvError::Empty)
        }
    }

    /// The state after an attempt to receive an element.
    pub open spec fn recv(self) -> Self {
        if self.elems.len() > 0 {
            QueueView { elems: self.elems.skip(1), extra: self.extra.release(), ..self }
        } else {
            self
        }
    }

    /// The result of polling for an element.
    pub open spec fn poll_result(self) -> Poll<Option<T>> {
        match self.recv_result() {
            Ok(elem) => Poll::Ready(Some(elem)),
            Err(TryRecvError::Disconnected) => Poll::Ready(None),
            Err(TryRecvError::Empty) => Poll::Pending,
        }
    }

    /// The state after polling for an element from the task `waker`.
    pub open spec fn poll_recv(self, waker: Waker) -> Self {
        if self.poll_result() is Pending {
            QueueView { waker: Some(waker), ..self }
        } else {
            self.recv()
        }
    }

    /// The state after closing the queue: the receiver and all waiting senders
    /// are notified.
    pub open spec fn close(self, counted: bool) -> Self {
        QueueView {
            mask: self.mask.close(counted),
            waker: None,
            wakes: self.wakes + crate::task::wakes_of(self.waker),
            extra: self.extra.close(),
            ..self
        }
    }

    /// The state after splitting the queue into handles.
    pub open spec fn split(self) -> Self {
        QueueView {
            mask: self.mask.reset(true),
            waker: None,
            extra: self.extra.reset(),
            ..self
        }
    }

    /// Whether the queue can be split into handles.
    pub open spec fn can_split(self) -> bool {
        self.mask.has_room()
    }

    /// The state after adding one sender.
    pub open spec fn add_sender(self) -> Self {
        QueueView { mask: self.mask.add_sender(), ..self }
    }

    /// The state after removing one sender: without the last one the receiver
    /// is notified.
    pub open spec fn remove_sender(self) -> Self {
        let last = self.mask.senders == 1;
        QueueView {
            mask: self.mask.remove_sender(),
            waker: if last {
                None
            } else {
                self.waker
            },
            wakes: if last {
                self.wakes + crate::task::wakes_of(self.waker)
            } else {
                self.wakes
            },
            ..self
        }
    }

    /// The state after taking the receiver's wakes.
    pub open spec fn without_wakes(self) -> Self {
        QueueView { wakes: Seq::empty(), ..self }
    }
}

/// A part of a queue that makes it bounded or unbounded.
pub trait QueueBound: Sized {
    /// The state of this part.
    type State: BoundState;

    /// The current state of this part.
    spec fn state(&self) -> Self::State;

    /// Whether this part is well-formed.
    spec fn wf(&self) -> bool;

    /// The identity of the queue.
    spec fn id(&self) -> usize;

    /// Returns a copy of the identity of the queue.
    fn share_id(&self) -> (id: InstanceId)
        ensures
            id@ == self.id(),
    ;

    /// Resets the available capacity.
    fn reset(&mut self)
        requires
            old(self).wf(),
        ensures
            final(self).wf(),
            final(self).id() == old(self).id(),
            final(self).state() == old(self).state().reset(),
    ;

    /// Notifies all waiting senders that the queue has been closed.
    fn close(&mut self)
        requires
            old(self).wf(),
        ensures
            final(self).wf(),
            final(self).id() == old(self).id(),
            final(self).state() == old(self).state().close(),
    ;

    /// Makes the capacity of a received element available again.
    fn add_permit(&mut self)
        requires
            old(self).wf(),
        ensures
            final(self).wf(),
            final(self).id() == old(self).id(),
            final(self).state() == old(self).state().release(),
    ;

    /// Returns `true` if any capacity is in use or reserved.
    fn has_outstanding_permits(&self) -> (result: bool)
        requires
            self.wf(),
        ensures
            result == !self.state().idle(),
    ;
}

/// Makes a queue unbounded.
pub struct Unbounded {
    /// The identity that the handles share.
    id: InstanceId,
}

impl QueueBound for Unbounded {
    type State = UnboundedState;

    open spec fn state(&self) -> UnboundedState {
        UnboundedState
    }

    open spec fn wf(&self) -> bool {
        true
    }

    closed spec fn id(&self) -> usize {
        self.id@
    }

    fn share_id(&self) -> (id: InstanceId) {
        self.id.share()
    }

    fn reset(&mut self) {
    }

    fn close(&mut self) {
    }

    fn add_permit(&mut self) {
    }

    fn has_outstanding_permits(&self) -> (result: bool) {
        false
    }
}

/// Makes a queue bounded.
pub struct Bounded {
    /// The semaphore sequencing the blocked senders.
    semaphore: Semaphore,
    /// The channel's capacity.
    max_capacity: usize,
}

impl QueueBound for Bounded {
    type State = BoundedState;

    closed spec fn state(&self) -> BoundedState {
        BoundedState { semaphore: self.semaphore@, max_capacity: self.max_capacity as nat }
    }

    closed spec fn wf(&self) -> bool {
        self.semaphore.linked() && self.state().inv()
    }

    closed spec fn id(&self) -> usize {
        self.semaphore.id()
    }

    fn share_id(&self) -> (id: InstanceId) {
        self.semaphore.share_id()
    }

    fn reset(&mut self) {
        proof {
            crate::bound::lemma_reset_inv(self.state());
        }
        // this can not underflow, because the available permits never exceed the
        // maximum capacity
        let diff: usize = self.max_capacity - self.semaphore.available_permits();
        self.semaphore.add_permits(diff);
    }

    fn close(&mut self) {
        proof {
            crate::bound::lemma_close_inv(self.state());
        }
        // must close the semaphore in order to notify all waiting senders
        let _ = self.semaphore.close();
    }

    fn add_permit(&mut self) {
        proof {
            crate::bound::lemma_release_inv(self.state());
        }
        let available: usize = self.semaphore.available_permits();
        let outstanding: usize = self.semaphore.outstanding_permits();
        if outstanding < self.max_capacity && available < self.max_capacity - outstanding {
            self.semaphore.add_permits(1);
        }
    }

    fn has_outstanding_permits(&self) -> (result: bool) {
        self.semaphore.available_permits() != self.max_capacity
    }
}

impl Bounded {
    /// Gives back capacity for one element, up to the maximum capacity.
    fn restore_permit(&mut self)
        requires
            old(self).wf(),
        ensures
            final(self).wf(),
            final(self).id() == old(self).id(),
            final(self).state() == old(self).state().restore(),
    {
        proof {
            crate::bound::lemma_restore_inv(self.state());
        }
        if self.semaphore.available_permits() < self.max_capacity {
            self.semaphore.add_permits(1);
        }
    }

    /// Drops a waiting sender and gives back the capacity that it has collected.
    fn cancel(&mut self, acquire: Acquire)
        requires
            old(self).wf(),
            acquire.id() == old(self).id(),
            old(self).state().semaphore.waiters.dom().contains(acquire@),
        ensures
            final(self).wf(),
            final(self).id() == old(self).id(),
            final(self).state() == old(self).state().cancel(acquire@),
    {
        proof {
            crate::bound::lemma_sender_accounted(self.state(), acquire@);
            crate::bound::lemma_cancel_inv(self.state(), acquire@);
        }
        if acquire.detach(&mut self.semaphore) > 0 {
            self.restore_permit();
        }
    }
}

/// Returns the number of elements that `queue` can hold without reallocating,
/// by calling `VecDeque::capacity`.
///
/// There is room for at least the elements that it holds. How much more an
/// allocator hands out is not stated.
#[verifier::external_body]
fn deque_capacity<T>(queue: &VecDeque<T>) -> (capacity: usize)
    ensures
        capacity >= queue@.len(),
{
    queue.capacity()
}

/// Calls `VecDeque::shrink_to`, which gives back memory but keeps the elements.
#[verifier::external_body]
fn deque_shrink_to<T>(queue: &mut VecDeque<T>, min_capacity: usize)
    ensures
        final(queue)@ == old(queue)@,
{
    queue.shrink_to(min_capacity)
}

/// A queue of elements together with all state regarding closing, waking and
/// capacity.
pub struct Queue<T, B> {
    /// The mask storing the closed flag and number of active senders.
    mask: Mask,
    /// The queue storing each element sent through the channel.
    queue: VecDeque<T>,
    /// The current count of pop operations since the last reset.
    pop_count: usize,
    /// The waker for the receiver.
    waker: Option<Waker>,
    /// The receiver's wakes that were not taken yet.
    wakes: Vec<Waker>,
    /// Extra state for bounded or unbounded specialization.
    extra: B,
}

impl<T, B: QueueBound> View for Queue<T, B> {
    type V = QueueView<T, B::State>;

    closed spec fn view(&self) -> QueueView<T, B::State> {
        QueueView {
            mask: self.mask@,
            elems: self.queue@,
            waker: self.waker,
            wakes: self.wakes@,
            extra: self.extra.state(),
        }
    }
}

/// A trait abstracting over either *bounded* or *unbounded* queues.
pub trait MaybeBoundedQueue: Sized {
    /// The type stored in the queue.
    type Item: Sized;

    /// The state of a bounded or unbounded queue.
    type Bound: BoundState;

    /// What the queue stores.
    spec fn contents(&self) -> QueueView<Self::Item, Self::Bound>;

    /// Whether the queue is well-formed.
    spec fn well_formed(&self) -> bool;

    /// The identity of the queue.
    spec fn identity(&self) -> usize;

    /// Resets the available capacity for a bounded queue.
    fn reset(&mut self)
        requires
            old(self).well_formed(),
        ensures
            final(self).well_formed(),
            final(self).identity() == old(self).identity(),
            final(self).contents() == (QueueView {
                extra: old(self).contents().extra.reset(),
                ..old(self).contents()
            }),
    ;

    /// Closes the queue and notifies all waiters.
    fn close<const COUNTED: bool>(&mut self)
        requires
            old(self).well_formed(),
        ensures
            final(self).well_formed(),
            final(self).identity() == old(self).identity(),
            final(self).contents() == old(self).contents().close(COUNTED),
    ;

    /// Dequeues an element from the queue.
    fn try_recv<const COUNTED: bool>(&mut self) -> (result: Result<Self::Item, TryRecvError>)
        requires
            old(self).well_formed(),
        ensures
            final(self).well_formed(),
            final(self).identity() == old(self).identity(),
            result == old(self).contents().recv_result(),
            final(self).contents() == old(self).contents().recv(),
    ;
}

impl<T, B: QueueBound> Queue<T, B> {
    /// Whether the queue is well-formed.
    pub closed spec fn wf(&self) -> bool {
        self.pop_count < SHRINK_INTERVAL && self.extra.wf()
    }

    /// The identity of the queue.
    pub closed spec fn id(&self) -> usize {
        self.extra.id()
    }

    /// Returns a copy of the identity of the queue.
    pub fn share_id(&self) -> (id: InstanceId)
        ensures
            id@ == self.id(),
    {
        self.extra.share_id()
    }

    /// Returns an open queue with the given elements.
    fn build(queue: VecDeque<T>, extra: B) -> (result: Self)
        requires
            extra.wf(),
        ensures
            result.wf(),
            result@ == QueueView::<T, B::State>::fresh(queue@, extra.state()),
    {
        Queue { mask: Mask::new(), queue, pop_count: 0, waker: None, wakes: Vec::new(), extra }
    }

    /// Converts into the underlying container.
    pub fn into_deque(self) -> (queue: VecDeque<T>)
        ensures
            queue@ == self@.elems,
    {
        self.queue
    }

    /// Returns the number of queued elements.
    pub fn len(&self) -> (len: usize)
        ensures
            len == self@.elems.len(),
    {
        self.queue.len()
    }

    /// Returns `true` if the queue is closed.
    pub fn is_closed<const COUNTED: bool>(&self) -> (closed: bool)
        ensures
            closed == self@.mask.closed,
    {
        self.mask.is_closed::<COUNTED>()
    }

    /// Returns the number of senders.
    pub fn senders(&self) -> (senders: usize)
        ensures
            senders == self@.mask.senders,
    {
        self.mask.senders()
    }

    /// Returns `true` if one more sender can be added.
    pub fn can_add_sender(&self) -> (result: bool)
        ensures
            result == self@.mask.has_room(),
    {
        self.mask.has_room()
    }

    /// Returns `true` if the queue can be split into handles.
    pub fn can_split(&self) -> (result: bool)
        ensures
            result == self@.can_split(),
    {
        self.mask.has_room()
    }

    /// Adds one sender.
    pub fn increase_sender_count(&mut self)
        requires
            old(self).wf(),
            old(self)@.mask.has_room(),
        ensures
            final(self).wf(),
            final(self).id() == old(self).id(),
            final(self)@ == old(self)@.add_sender(),
    {
        self.mask.increase_sender_count();
    }

    /// Removes one sender, closes the queue if it was the last one and notifies
    /// the receiver.
    pub fn decrease_sender_count(&mut self)
        requires
            old(self).wf(),
            old(self)@.mask.senders >= 1,
        ensures
            final(self).wf(),
            final(self).id() == old(self).id(),
            final(self)@ == old(self)@.remove_sender(),
    {
        if self.mask.decrease_sender_count() {
            if let Some(waker) = self.waker.take() {
                self.wakes.push(waker);
            }
        }
        assert(self@.wakes =~= old(self)@.remove_sender().wakes);
    }

    /// Pushes `elem` to the back of the queue and wakes the registered waker if
    /// set.
    fn push_and_wake(&mut self, elem: T)
        requires
            old(self).wf(),
        ensures
            final(self).wf(),
            final(self).id() == old(self).id(),
            final(self).extra == old(self).extra,
            final(self)@ == old(self)@.push(elem),
    {
        self.queue.push_back(elem);
        if let Some(waker) = self.waker {
            self.wakes.push(waker);
        }
        assert(self@.wakes =~= old(self)@.push(elem).wakes);
    }

    /// Pops the first element in the queue and checks if the queue's capacity
    /// should be shrunk.
    fn pop_front(&mut self) -> (first: Option<T>)
        requires
            old(self).pop_count < SHRINK_INTERVAL,
        ensures
            final(self).extra == old(self).extra,
            final(self).mask == old(self).mask,
            final(self).waker == old(self).waker,
            final(self).wakes == old(self).wakes,
            match first {
                Some(elem) => {
                    &&& old(self).queue@.len() > 0
                    &&& elem == old(self).queue@[0]
                    &&& final(self).queue@ == old(self).queue@.skip(1)
                    &&& final(self).pop_count == (old(self).pop_count + 1)
                        % SHRINK_INTERVAL as int
                },
                None => {
                    &&& old(self).queue@.len() == 0
                    &&& final(self).queue@ == old(self).queue@
                    &&& final(self).pop_count == 0
                },
            },
    {
        match self.queue.pop_front() {
            Some(elem) => {
                // check every few thousand operations, if the queue can be
                // shrunk
                self.pop_count = self.pop_count + 1;
                if self.pop_count == SHRINK_INTERVAL {
                    self.try_shrink_queue();
                }
                Some(elem)
            },
            None => {
                // when the queue first becomes empty, try to shrink it once
                if self.pop_count > 0 {
                    self.try_shrink_queue();
                    self.pop_count = 0;
                }
                None
            },
        }
    }

    /// Shrinks the queue's capacity to `length + 32` if the current capacity is
    /// at least 4 times that.
    fn try_shrink_queue(&mut self)
        ensures
            final(self).queue@ == old(self).queue@,
            final(self).pop_count == 0,
            final(self).extra == old(self).extra,
            final(self).mask == old(self).mask,
            final(self).waker == old(self).waker,
            final(self).wakes == old(self).wakes,
    {
        let target_capacity: usize = self.queue.len().saturating_add(32);
        if deque_capacity(&self.queue) / 4 >= target_capacity {
            deque_shrink_to(&mut self.queue, target_capacity);
        }
        self.pop_count = 0;
    }

    /// Prepares the queue for handles whose senders are counted.
    pub fn set_counted(&mut self)
        requires
            old(self).wf(),
            old(self)@.can_split(),
        ensures
            final(self).wf(),
            final(self).id() == old(self).id(),
            final(self)@ == old(self)@.split(),
    {
        self.extra.reset();
        self.waker = None;
        self.mask.reset::<COUNTED>();
    }

    /// Dequeues an element or registers `waker` to be woken once there is one.
    pub fn poll_recv<const COUNTED: bool>(&mut self, waker: Waker) -> (result: Poll<Option<T>>)
        requires
            old(self).wf(),
        ensures
            final(self).wf(),
            final(self).id() == old(self).id(),
            result == old(self)@.poll_result(),
            final(self)@ == old(self)@.poll_recv(waker),
    {
        match self.try_recv::<COUNTED>() {
            Ok(elem) => Poll::Ready(Some(elem)),
            Err(TryRecvError::Disconnected) => Poll::Ready(None),
            Err(TryRecvError::Empty) => {
                // this overwrites any previous waker
                self.waker = Some(waker);
                Poll::Pending
            },
        }
    }

    /// Takes the receiver's wakes since they were last taken.
    pub fn take_receiver_wakes(&mut self) -> (wakes: Vec<Waker>)
        requires
            old(self).wf(),
        ensures
            final(self).wf(),
            final(self).id() == old(self).id(),
            wakes@ == old(self)@.wakes,
            final(self)@ == old(self)@.without_wakes(),
    {
        let mut wakes: Vec<Waker> = Vec::new();
        core::mem::swap(&mut wakes, &mut self.wakes);
        wakes
    }
}

impl<T, B: QueueBound> MaybeBoundedQueue for Queue<T, B> {
    type Item = T;

    type Bound = B::State;

    open spec fn contents(&self) -> QueueView<T, B::State> {
        self@
    }

    open spec fn well_formed(&self) -> bool {
        self.wf()
    }

    open spec fn identity(&self) -> usize {
        self.id()
    }

    fn reset(&mut self) {
        self.extra.reset();
    }

    fn close<const COUNTED: bool>(&mut self) {
        self.mask.close::<COUNTED>();
        self.extra.close();
        if let Some(waker) = self.waker.take() {
            self.wakes.push(waker);
        }
        assert(self@.wakes =~= old(self)@.close(COUNTED).wakes);
    }

    fn try_recv<const COUNTED: bool>(&mut self) -> (result: Result<T, TryRecvError>) {
        match self.pop_front() {
            // an element exists in the channel, make its capacity available to
            // the next blocked sender, if any, and return the element
            Some(elem) => {
                self.extra.add_permit();
                Ok(elem)
            },
            // the channel is empty, but may also have been closed already; we
            // must also check if there is capacity in use before the queue can
            // be assessed to be disconnected
            None => if !self.extra.has_outstanding_permits() && self.mask.is_closed::<COUNTED>() {
                Err(TryRecvError::Disconnected)
            } else {
                Err(TryRecvError::Empty)
            },
        }
    }
}

/// A queue that holds any number of elements.
pub type UnboundedQueue<T> = Queue<T, Unbounded>;

/// A queue that holds a limited number of elements.
pub type BoundedQueue<T> = Queue<T, Bounded>;

impl<T> QueueView<T, UnboundedState> {
    /// The result of an attempt to send `elem`.
    pub open spec fn send_result(self, elem: T) -> Result<(), SendError<T>> {
        if self.mask.closed {
            Err(SendError(elem))
        } else {
            Ok(())
        }
    }

    /// The state after an attempt to send `elem`.
    pub open spec fn send(self, elem: T) -> Self {
        if self.mask.closed {
            self
        } else {
            self.push(elem)
        }
    }
}

impl<T> Queue<T, Unbounded> {
    /// Returns an empty queue.
    pub fn new() -> (queue: Self)
        ensures
            queue.wf(),
            queue@ == QueueView::fresh(Seq::<T>::empty(), UnboundedState),
    {
        Queue::build(VecDeque::new(), Unbounded { id: InstanceId::new() })
    }

    /// Returns an empty queue with room for `capacity` elements.
    pub fn with_capacity(capacity: usize) -> (queue: Self)
        ensures
            queue.wf(),
            queue@ == QueueView::fresh(Seq::<T>::empty(), UnboundedState),
    {
        Queue::build(VecDeque::with_capacity(capacity), Unbounded { id: InstanceId::new() })
    }

    /// Returns a queue with the given elements.
    pub fn from_iter(elems: VecDeque<T>) -> (queue: Self)
        ensures
            queue.wf(),
            queue@ == QueueView::fresh(elems@, UnboundedState),
    {
        Queue::build(elems, Unbounded { id: InstanceId::new() })
    }

    /// Sends `elem` unless the queue has been closed.
    pub fn send<const COUNTED: bool>(&mut self, elem: T) -> (result: Result<(), SendError<T>>)
        requires
            old(self).wf(),
        ensures
            final(self).wf(),
            final(self).id() == old(self).id(),
            result == old(self)@.send_result(elem),
            final(self)@ == old(self)@.send(elem),
    {
        // check if the channel was closed
        if self.mask.is_closed::<COUNTED>() {
            return Err(SendError(elem));
        }
        // ..otherwise push `elem` and wake a potential waiter

        self.push_and_wake(elem);
        Ok(())
    }
}

impl<T> QueueView<T, BoundedState> {
    /// The state with another state of the semaphore.
    pub open spec fn with_semaphore(self, semaphore: SemaphoreView) -> Self {
        QueueView { extra: self.extra.with_semaphore(semaphore), ..self }
    }

    /// The state after reserving capacity for one element.
    pub open spec fn reserve(self) -> Self {
        self.with_semaphore(self.extra.semaphore.shrink(1))
    }

    /// The state after returning reserved capacity for one element.
    pub open spec fn unreserve(self) -> Self {
        QueueView { extra: self.extra.restore(), ..self }
    }

    /// The result of an attempt to reserve capacity for one element.
    pub open spec fn try_reserve_result(self) -> Result<(), TrySendError<()>> {
        match self.extra.semaphore.refusal(1) {
            Some(error) => Err(TrySendError::refused(error, ())),
            None => Ok(()),
        }
    }

    /// The state after an attempt to reserve capacity for one element.
    pub open spec fn try_reserve(self) -> Self {
        if self.extra.semaphore.refusal(1) is Some {
            self
        } else {
            self.reserve()
        }
    }

    /// The result of an attempt to send `elem`.
    pub open spec fn try_send_result(self, elem: T) -> Result<(), TrySendError<T>> {
        match self.extra.semaphore.refusal(1) {
            Some(error) => Err(TrySendError::refused(error, elem)),
            None => Ok(()),
        }
    }

    /// The state after an attempt to send `elem`.
    pub open spec fn try_send(self, elem: T) -> Self {
        if self.extra.semaphore.refusal(1) is Some {
            self
        } else {
            self.reserve().push(elem)
        }
    }

    /// The state after sending `elem` regardless of the capacity.
    pub open spec fn unbounded_send(self, reducing: bool, elem: T) -> Self {
        if reducing {
            self.with_semaphore(self.extra.semaphore.shrink(1)).push(elem)
        } else {
            self.push(elem)
        }
    }

    /// Whether there is a sender with the given key that waits for capacity or
    /// has not been polled yet.
    pub open spec fn has_sender(self, key: usize) -> bool {
        self.extra.semaphore.waiters.dom().contains(key)
    }

    /// The outcome of polling for capacity for one element.
    pub open spec fn reserve_outcome(self, key: usize) -> Acquisition {
        self.extra.semaphore.poll_outcome(key)
    }

    /// The state after polling for capacity for one element.
    ///
    /// Once the outcome is known, the waiter is dropped.
    pub open spec fn poll_reserve(self, key: usize, waker: Waker) -> Self {
        let polled = self.extra.semaphore.poll(key, waker);
        match self.reserve_outcome(key) {
            Acquisition::Acquired(count) => self.with_semaphore(
                polled.unregister(key).forget(count),
            ),
            Acquisition::Closed => self.with_semaphore(polled).cancel(key),
            Acquisition::Pending => self.with_semaphore(polled),
        }
    }

    /// The state after polling for capacity in order to send `elem`.
    pub open spec fn poll_send(self, key: usize, elem: T, waker: Waker) -> Self {
        let polled = self.poll_reserve(key, waker);
        if self.reserve_outcome(key) is Acquired {
            polled.push(elem)
        } else {
            polled
        }
    }

    /// The state after dropping a waiting sender.
    pub open spec fn cancel(self, key: usize) -> Self {
        QueueView { extra: self.extra.cancel(key), ..self }
    }

    /// The state after registering a sender that has not been polled yet.
    pub open spec fn register(self, key: usize) -> Self {
        self.with_semaphore(self.extra.semaphore.register(key, 1))
    }
}

impl<T> Queue<T, Bounded> {
    /// The invariant of a bounded queue holds of every well-formed one.
    pub proof fn lemma_inv(&self)
        requires
            self.wf(),
        ensures
            self@.extra.inv(),
    {
    }

    /// Returns an empty queue for up to `capacity` elements.
    pub fn new(capacity: usize) -> (queue: Self)
        requires
            capacity > 0,
        ensures
            queue.wf(),
            queue@ == QueueView::fresh(
                Seq::<T>::empty(),
                BoundedState::fresh(capacity as nat, capacity as nat),
            ),
    {
        proof {
            crate::bound::lemma_fresh_inv(capacity as nat, capacity as nat);
        }
        Queue::build(
            VecDeque::new(),
            Bounded { semaphore: Semaphore::new(capacity), max_capacity: capacity },
        )
    }

    /// Returns an empty queue for up to `capacity` elements with room for at
    /// least `initial` elements.
    pub fn with_capacity(capacity: usize, initial: usize) -> (queue: Self)
        requires
            capacity > 0,
        ensures
            queue.wf(),
            queue@ == QueueView::fresh(
                Seq::<T>::empty(),
                BoundedState::fresh(capacity as nat, capacity as nat),
            ),
    {
        let initial: usize = if initial > capacity {
            initial
        } else {
            capacity
        };
        proof {
            crate::bound::lemma_fresh_inv(capacity as nat, capacity as nat);
        }
        Queue::build(
            VecDeque::with_capacity(initial),
            Bounded { semaphore: Semaphore::new(capacity), max_capacity: capacity },
        )
    }

    /// Returns a queue with the given elements, which reduce its capacity.
    pub fn from_iter(capacity: usize, elems: VecDeque<T>) -> (queue: Self)
        requires
            capacity > 0,
        ensures
            queue.wf(),
            queue@ == QueueView::fresh(
                elems@,
                BoundedState::fresh(
                    crate::permits::sat_sub(capacity as nat, elems@.len()),
                    capacity as nat,
                ),
            ),
    {
        let initial_capacity: usize = capacity.saturating_sub(elems.len());
        proof {
            crate::bound::lemma_fresh_inv(initial_capacity as nat, capacity as nat);
        }
        Queue::build(
            elems,
            Bounded { semaphore: Semaphore::new(initial_capacity), max_capacity: capacity },
        )
    }

    /// Returns the maximum capacity.
    pub fn max_capacity(&self) -> (capacity: usize)
        ensures
            capacity == self@.extra.max_capacity,
    {
        self.extra.max_capacity
    }

    /// Returns the current capacity.
    pub fn capacity(&self) -> (capacity: usize)
        ensures
            capacity == self@.extra.semaphore.permits,
    {
        self.extra.semaphore.available_permits()
    }

    /// Returns the number of permits that waiting senders hold.
    pub fn outstanding_permits(&self) -> (permits: usize)
        ensures
            permits == self@.extra.semaphore.outstanding,
    {
        self.extra.semaphore.outstanding_permits()
    }

    /// Sends `elem` regardless of the capacity, which is reduced on request.
    pub fn unbounded_send<const CAPACITY_REDUCING: bool>(&mut self, elem: T)
        requires
            old(self).wf(),
        ensures
            final(self).wf(),
            final(self).id() == old(self).id(),
            final(self)@ == old(self)@.unbounded_send(CAPACITY_REDUCING, elem),
    {
        if CAPACITY_REDUCING {
            self.extra.semaphore.remove_permits(1);
            proof {
                crate::bound::lemma_counts_inv(old(self)@.extra, self@.extra.semaphore);
            }
        }
        self.push_and_wake(elem);
    }

    /// Sends `elem` if there is capacity and the queue is open.
    pub fn try_send(&mut self, elem: T) -> (result: Result<(), TrySendError<T>>)
        requires
            old(self).wf(),
        ensures
            final(self).wf(),
            final(self).id() == old(self).id(),
            result == old(self)@.try_send_result(elem),
            final(self)@ == old(self)@.try_send(elem),
    {
        // check if there is room in the channel and the channel is still open
        // A permit that is forgotten at once permanently decreases the number of
        // available permits, which is increased again after the element is
        // dequeued.
        if let Err(error) = self.extra.semaphore.try_remove_permits(1) {
            return Err(TrySendError::from((error, elem)));
        }
        proof {
            crate::bound::lemma_counts_inv(old(self)@.extra, self@.extra.semaphore);
        }
        self.push_and_wake(elem);
        Ok(())
    }

    /// Reserves capacity for one element if there is any and the queue is open.
    pub fn try_reserve(&mut self) -> (result: Result<(), TrySendError<()>>)
        requires
            old(self).wf(),
        ensures
            final(self).wf(),
            final(self).id() == old(self).id(),
            result == old(self)@.try_reserve_result(),
            final(self)@ == old(self)@.try_reserve(),
    {
        // check if there is room in the channel and the channel is still open
        // The permit that is forgotten at once is given back when the reserved
        // capacity is returned.
        if let Err(error) = self.extra.semaphore.try_remove_permits(1) {
            return Err(TrySendError::from(error));
        }
        proof {
            crate::bound::lemma_counts_inv(old(self)@.extra, self@.extra.semaphore);
        }
        Ok(())
    }

    /// Returns reserved capacity for one element.
    pub fn unreserve(&mut self)
        requires
            old(self).wf(),
        ensures
            final(self).wf(),
            final(self).id() == old(self).id(),
            final(self)@ == old(self)@.unreserve(),
    {
        self.extra.restore_permit();
    }

    /// Starts waiting for capacity for one element.
    pub fn reserve(&mut self) -> (acquire: Acquire)
        requires
            old(self).wf(),
        ensures
            final(self).wf(),
            final(self).id() == old(self).id(),
            acquire.id() == old(self).id(),
            acquire@ < usize::MAX,
            !old(self)@.has_sender(acquire@),
            final(self)@ == old(self)@.register(acquire@),
    {
        let acquire = self.extra.semaphore.acquire();
        proof {
            crate::bound::lemma_register_inv(old(self)@.extra, acquire@);
        }
        acquire
    }

    /// Polls for capacity for one element from the task `waker`.
    ///
    /// Once the outcome is known, `acquire` is taken.
    pub fn poll_reserve(&mut self, acquire: &mut Option<Acquire>, waker: Waker) -> (result: Poll<
        Result<(), SendError<()>>,
    >)
        requires
            old(self).wf(),
            *old(acquire) is Some,
            (*old(acquire))->0.id() == old(self).id(),
            old(self)@.has_sender((*old(acquire))->0@),
        ensures
            final(self).wf(),
            final(self).id() == old(self).id(),
            final(self)@ == old(self)@.poll_reserve((*old(acquire))->0@, waker),
            match old(self)@.reserve_outcome((*old(acquire))->0@) {
                Acquisition::Acquired(_) => {
                    &&& result == Poll::Ready(Ok::<(), SendError<()>>(()))
                    &&& *final(acquire) is None
                },
                Acquisition::Closed => {
                    &&& result == Poll::Ready(Err::<(), SendError<()>>(SendError(())))
                    &&& *final(acquire) is None
                },
                Acquisition::Pending => {
                    &&& result is Pending
                    &&& *final(acquire) is Some
                    &&& (*final(acquire))->0@ == (*old(acquire))->0@
                    &&& (*final(acquire))->0.id() == old(self).id()
                },
            },
    {
        let mut pending = acquire.take().unwrap();
        proof {
            crate::bound::lemma_poll_inv(self@.extra, pending@, waker);
        }
        match pending.poll(&mut self.extra.semaphore, waker) {
            Poll::Ready(Ok(permit)) => {
                // all collected permits have been handed over
                let _ = pending.detach(&mut self.extra.semaphore);
                permit.forget(&mut self.extra.semaphore);
                Poll::Ready(Ok(()))
            },
            Poll::Ready(Err(_)) => {
                self.extra.cancel(pending);
                Poll::Ready(Err(SendError(())))
            },
            Poll::Pending => {
                *acquire = Some(pending);
                Poll::Pending
            },
        }
    }

    /// Stops waiting for capacity.
    pub fn cancel(&mut self, acquire: Acquire)
        requires
            old(self).wf(),
            acquire.id() == old(self).id(),
            old(self)@.has_sender(acquire@),
        ensures
            final(self).wf(),
            final(self).id() == old(self).id(),
            final(self)@ == old(self)@.cancel(acquire@),
    {
        self.extra.cancel(acquire);
    }

    /// Takes the wakes of waiting senders since they were last taken.
    pub fn take_sender_wakes(&mut self) -> (wakes: Vec<Waker>)
        requires
            old(self).wf(),
        ensures
            final(self).wf(),
            final(self).id() == old(self).id(),
            wakes@ == old(self)@.extra.semaphore.wakes,
            final(self)@ == old(self)@.with_semaphore(
                SemaphoreView { wakes: Seq::empty(), ..old(self)@.extra.semaphore },
            ),
    {
        let wakes = self.extra.semaphore.take_wakes();
        proof {
            crate::bound::lemma_counts_inv(old(self)@.extra, self@.extra.semaphore);
        }
        wakes
    }
}

} // verus!

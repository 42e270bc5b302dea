//! The laws of bounded and unbounded channels: what holds across their
//! operations.

use crate::bound::{BoundState, BoundedState, UnboundedState};
use crate::error::{SendError, TryRecvError, TrySendError};
use crate::mask::{MaskView, COUNTED};
use crate::permits::{Acquisition, SemaphoreView};
use crate::queue::QueueView;
use crate::task::{Poll, Waker};
use vstd::prelude::*;

verus! {

/// An operation that adds or removes an element.
pub enum Transfer<T> {
    /// The given element has been sent.
    Send(T),
    /// An attempt to receive an element was made.
    Receive,
}

impl<T, E: BoundState> QueueView<T, E> {
    /// The state after a series of operations.
    pub open spec fn after(self, transfers: Seq<Transfer<T>>) -> Self
        decreases transfers.len(),
    {
        if transfers.len() == 0 {
            self
        } else {
            let state = self.after(transfers.drop_last());
            match transfers.last() {
                Transfer::Send(elem) => state.push(elem),
                Transfer::Receive => state.recv(),
            }
        }
    }

    /// The elements that were received in a series of operations.
    pub open spec fn received(self, transfers: Seq<Transfer<T>>) -> Seq<T>
        decreases transfers.len(),
    {
        if transfers.len() == 0 {
            Seq::empty()
        } else {
            let state = self.after(transfers.drop_last());
            let received = self.received(transfers.drop_last());
            match (transfers.last(), state.recv_result()) {
                (Transfer::Receive, Ok(elem)) => received.push(elem),
                _ => received,
            }
        }
    }
}

/// The elements that were sent in a series of operations.
pub open spec fn sent<T>(transfers: Seq<Transfer<T>>) -> Seq<T>
    decreases transfers.len(),
{
    if transfers.len() == 0 {
        Seq::empty()
    } else {
        match transfers.last() {
            Transfer::Send(elem) => sent(transfers.drop_last()).push(elem),
            Transfer::Receive => sent(transfers.drop_last()),
        }
    }
}

/// Every element is received exactly once and in the order in which the
/// elements were sent: what has been received, followed by what is still
/// queued, is what was queued at first, followed by what has been sent.
pub proof fn law_first_in_first_out<T, E: BoundState>(
    state: QueueView<T, E>,
    transfers: Seq<Transfer<T>>,
)
    ensures
        state.received(transfers) + state.after(transfers).elems == state.elems + sent(transfers),
    decreases transfers.len(),
{
    if transfers.len() == 0 {
        assert(state.received(transfers) + state.elems =~= state.elems + sent(transfers));
    } else {
        let before = transfers.drop_last();
        law_first_in_first_out(state, before);
        let mid = state.after(before);
        let received = state.received(before);
        match transfers.last() {
            Transfer::Send(elem) => {
                assert(received + mid.elems.push(elem) =~= (received + mid.elems).push(elem));
                assert(state.elems + sent(before).push(elem) =~= (state.elems + sent(before)).push(
                    elem,
                ));
            },
            Transfer::Receive => {
                if mid.elems.len() > 0 {
                    assert(received.push(mid.elems[0]) + mid.elems.skip(1) =~= received
                        + mid.elems);
                }
            },
        }
    }
}

/// No operation but sending and receiving adds, removes or reorders elements.
pub proof fn law_elements_stay<T, E: BoundState>(state: QueueView<T, E>, counted: bool)
    ensures
        state.close(counted).elems == state.elems,
        state.split().elems == state.elems,
        state.add_sender().elems == state.elems,
        state.remove_sender().elems == state.elems,
        state.without_wakes().elems == state.elems,
{
}

/// Polling for an element agrees with attempting to receive one.
pub proof fn law_poll_is_recv<T, E: BoundState>(state: QueueView<T, E>, waker: Waker)
    ensures
        state.poll_result() is Ready <==> !(state.recv_result() == Err::<T, _>(
            TryRecvError::Empty,
        )),
        state.poll_result() is Ready ==> state.poll_recv(waker) == state.recv(),
        state.poll_result() is Pending ==> state.poll_recv(waker) == (QueueView {
            waker: Some(waker),
            ..state
        }),
{
}

/// Queued elements can still be received after the channel has been closed.
pub proof fn law_receive_after_close<T, E: BoundState>(state: QueueView<T, E>, counted: bool)
    requires
        state.elems.len() > 0,
    ensures
        state.close(counted).mask.closed,
        state.close(counted).recv_result() == Ok::<T, TryRecvError>(state.elems[0]),
        state.close(counted).recv().elems == state.elems.skip(1),
{
}

/// A channel is disconnected exactly if it is closed, holds no elements and
/// has no capacity in use or reserved.
pub proof fn law_disconnected<T, E: BoundState>(state: QueueView<T, E>)
    ensures
        state.recv_result() == Err::<T, _>(TryRecvError::Disconnected) <==> {
            &&& state.elems.len() == 0
            &&& state.mask.closed
            &&& state.extra.idle()
        },
{
}

/// A closed channel is never opened again.
pub proof fn law_channel_closed_forever<T, E: BoundState>(
    state: QueueView<T, E>,
    elem: T,
    counted: bool,
    waker: Waker,
)
    requires
        state.mask.closed,
    ensures
        state.push(elem).mask.closed,
        state.recv().mask.closed,
        state.poll_recv(waker).mask.closed,
        state.close(counted).mask.closed,
        state.split().mask.closed,
        state.add_sender().mask.closed,
        state.remove_sender().mask.closed,
        state.without_wakes().mask.closed,
{
}

/// Cloning a sender and dropping the clone leaves the channel as it was.
pub proof fn law_clone_and_drop<T, E: BoundState>(state: QueueView<T, E>)
    requires
        state.mask.senders >= 1,
    ensures
        state.add_sender().remove_sender() == state,
{
}

/// Dropping a sender that is not the last one has no other effect than that
/// there is one sender less.
pub proof fn law_drop_sender<T, E: BoundState>(state: QueueView<T, E>)
    requires
        state.mask.senders >= 2,
    ensures
        state.remove_sender().mask.closed == state.mask.closed,
        state.remove_sender().mask.senders == state.mask.senders - 1,
        state.remove_sender() == (QueueView { mask: state.remove_sender().mask, ..state }),
{
}

/// Dropping the last sender closes the channel and wakes the receiver that
/// waits for an element.
pub proof fn law_drop_last_sender<T, E: BoundState>(state: QueueView<T, E>, waker: Waker)
    requires
        state.mask.senders == 1,
        state.waker == Some(waker),
    ensures
        state.remove_sender().mask.closed,
        state.remove_sender().wakes == state.wakes.push(waker),
        state.elems.len() == 0 && state.extra.idle() ==> state.remove_sender().poll_result()
            == Poll::Ready(None::<T>),
{
    assert(state.remove_sender().wakes =~= state.wakes.push(waker));
}

/// Dropping the handles of a split channel closes it, in whichever order they
/// are dropped.
pub proof fn law_drop_handles<T, E: BoundState>(state: QueueView<T, E>)
    requires
        state.mask.senders == 0,
    ensures
        state.split().remove_sender().mask.closed,
        state.split().remove_sender().close(COUNTED).mask == (MaskView {
            closed: true,
            senders: 0,
        }),
        state.split().close(COUNTED).mask.closed,
        state.split().close(COUNTED).remove_sender().mask == (MaskView {
            closed: true,
            senders: 0,
        }),
{
}

/// A receiver that had to wait is woken by the next element, and polling it
/// again hands that element over.
pub proof fn law_send_wakes_receiver<T, E: BoundState>(
    state: QueueView<T, E>,
    waker: Waker,
    elem: T,
)
    requires
        state.poll_result() is Pending,
    ensures
        state.poll_recv(waker).push(elem).wakes == state.wakes.push(waker),
        state.poll_recv(waker).push(elem).poll_result() == Poll::Ready(Some(elem)),
{
    assert(state.elems.len() == 0);
    assert(state.poll_recv(waker).push(elem).wakes =~= state.wakes.push(waker));
}

/// A receiver that had to wait is woken when the channel is closed, and polling
/// it again ends unless some capacity is still in use.
pub proof fn law_close_wakes_receiver<T, E: BoundState>(
    state: QueueView<T, E>,
    counted: bool,
    waker: Waker,
)
    requires
        state.poll_result() is Pending,
    ensures
        ({
            let closed = state.poll_recv(waker).close(counted);
            &&& closed.wakes == state.wakes.push(waker)
            &&& closed.waker is None
            &&& closed.extra.idle() ==> closed.poll_result() == Poll::Ready(None::<T>)
        }),
{
    assert(state.poll_recv(waker).close(counted).wakes =~= state.wakes.push(waker));
}

/// Only the receiver that was polled last is woken.
pub proof fn law_last_receiver_is_woken<T, E: BoundState>(
    state: QueueView<T, E>,
    first: Waker,
    second: Waker,
)
    requires
        state.poll_result() is Pending,
    ensures
        state.poll_recv(first).poll_result() is Pending,
        state.poll_recv(first).poll_recv(second) == state.poll_recv(second),
{
}

/// Sending through an unbounded channel succeeds exactly if the channel is
/// open, and a failed attempt returns the element and changes nothing.
pub proof fn law_unbounded_send<T>(state: QueueView<T, UnboundedState>, counted: bool, elem: T)
    ensures
        state.mask.closed ==> {
            &&& state.send_result(elem) == Err::<(), _>(SendError(elem))
            &&& state.send(elem) == state
        },
        !state.mask.closed ==> {
            &&& state.send_result(elem) == Ok::<(), SendError<T>>(())
            &&& state.send(elem) == state.push(elem)
        },
        state.close(counted).send_result(elem) == Err::<(), _>(SendError(elem)),
{
}

impl<T> QueueView<T, BoundedState> {
    /// Whether the whole capacity is accounted for: it is available, collected
    /// by waiting senders, taken by queued elements or reserved.
    pub open spec fn balanced(self, reserved: nat) -> bool {
        self.extra.semaphore.permits + self.extra.semaphore.outstanding + self.elems.len()
            + reserved == self.extra.max_capacity
    }
}

/// The whole capacity of a new channel is accounted for.
pub proof fn law_balanced_fresh<T>(elems: Seq<T>, capacity: nat)
    requires
        elems.len() <= capacity,
    ensures
        QueueView::fresh(
            elems,
            BoundedState::fresh(crate::permits::sat_sub(capacity, elems.len()), capacity),
        ).balanced(0),
{
}

/// Sending an element takes one unit of the available capacity.
pub proof fn law_try_send_takes_capacity<T>(
    state: QueueView<T, BoundedState>,
    elem: T,
    reserved: nat,
)
    requires
        state.extra.inv(),
        state.balanced(reserved),
        state.try_send_result(elem) is Ok,
    ensures
        state.try_send(elem).extra.semaphore.permits == state.extra.semaphore.permits - 1,
        state.try_send(elem).elems == state.elems.push(elem),
        state.try_send(elem).balanced(reserved),
{
}

/// A refused attempt to send changes nothing, returns the element and says
/// whether the channel is closed or full.
pub proof fn law_try_send_refused<T>(state: QueueView<T, BoundedState>, elem: T)
    ensures
        state.extra.semaphore.closed ==> state.try_send_result(elem) == Err::<(), _>(
            TrySendError::Closed(elem),
        ),
        !state.extra.semaphore.closed && state.extra.semaphore.permits == 0
            ==> state.try_send_result(elem) == Err::<(), _>(TrySendError::Full(elem)),
        !state.extra.semaphore.closed && state.extra.semaphore.permits > 0
            ==> state.try_send_result(elem) == Ok::<(), TrySendError<T>>(()),
        state.try_send_result(elem) is Err ==> state.try_send(elem) == state,
        state.try_reserve_result() is Ok <==> state.try_send_result(elem) is Ok,
{
}

/// Receiving an element makes its unit of capacity available again, or hands
/// it to a waiting sender.
pub proof fn law_recv_returns_capacity<T>(state: QueueView<T, BoundedState>, reserved: nat)
    requires
        state.extra.inv(),
        state.balanced(reserved),
        state.elems.len() > 0,
    ensures
        state.recv().balanced(reserved),
        state.extra.semaphore.queue.len() == 0 ==> state.recv().extra.semaphore.permits
            == state.extra.semaphore.permits + 1,
{
    let semaphore = state.extra.semaphore;
    crate::permit_laws::law_grant_total(semaphore, 1);
    if semaphore.queue.len() == 0 {
        crate::permits::lemma_served(semaphore, 1, 0, 0);
    }
}

/// Reserving capacity takes one unit of it, and so does a reservation that had
/// to wait.
pub proof fn law_reserve_takes_capacity<T>(
    state: QueueView<T, BoundedState>,
    key: usize,
    waker: Waker,
    reserved: nat,
)
    requires
        state.extra.inv(),
        state.balanced(reserved),
    ensures
        state.try_reserve_result() is Ok ==> state.try_reserve().balanced(reserved + 1),
        state.has_sender(key) ==> match state.reserve_outcome(key) {
            Acquisition::Acquired(_) => state.poll_reserve(key, waker).balanced(reserved + 1),
            _ => state.poll_reserve(key, waker).balanced(reserved),
        },
{
    let semaphore = state.extra.semaphore;
    if state.has_sender(key) {
        let polled = semaphore.poll(key, waker);
        crate::bound::lemma_poll_inv(state.extra, key, waker);
        crate::permits::lemma_poll_inv(semaphore, key, waker);
        crate::permit_laws::law_poll_total(semaphore, key, waker);
        if state.reserve_outcome(key) is Closed {
            law_cancel_returns_capacity(state.with_semaphore(polled), key, reserved);
        }
    }
}

/// Using a reservation to send an element leaves the capacity unchanged, and
/// reserving capacity and using it is the same as sending at once.
pub proof fn law_reserve_and_send<T>(state: QueueView<T, BoundedState>, elem: T, reserved: nat)
    ensures
        state.balanced(reserved + 1) ==> state.push(elem).balanced(reserved),
        state.push(elem).extra == state.extra,
        state.try_reserve_result() is Ok ==> state.try_reserve().push(elem) == state.try_send(elem),
{
}

/// Reserving capacity and dropping the reservation leaves the channel as it was.
pub proof fn law_reserve_and_drop<T>(state: QueueView<T, BoundedState>)
    requires
        state.extra.inv(),
        state.try_reserve_result() is Ok,
    ensures
        state.try_reserve().unreserve() == state,
{
    let taken = state.extra.semaphore.shrink(1);
    crate::permits::lemma_served(taken, 1, 0, 0);
    crate::permits::lemma_complete_nothing(taken);
}

/// Dropping a reservation returns its unit of capacity, unless the maximum
/// capacity is available: it becomes available or goes to the sender that has
/// waited longest, and what other senders have collected stays with them.
pub proof fn law_unreserve_returns_capacity<T>(state: QueueView<T, BoundedState>, reserved: nat)
    requires
        state.extra.inv(),
        state.extra.semaphore.permits < state.extra.max_capacity,
    ensures
        state.balanced(reserved + 1) ==> state.unreserve().balanced(reserved),
        state.unreserve() == state.with_semaphore(state.extra.semaphore.grant(1)),
        state.extra.semaphore.queue.len() == 0 ==> {
            &&& state.unreserve().extra.semaphore.permits == state.extra.semaphore.permits + 1
            &&& state.unreserve().extra.semaphore.outstanding == state.extra.semaphore.outstanding
            &&& state.unreserve().extra.semaphore.waiters == state.extra.semaphore.waiters
        },
{
    let semaphore = state.extra.semaphore;
    if state.balanced(reserved + 1) {
        crate::permit_laws::law_grant_total(semaphore, 1);
    }
    if semaphore.queue.len() == 0 {
        crate::permits::lemma_served(semaphore, 1, 0, 0);
        crate::permits::lemma_complete_nothing(semaphore);
    }
}

/// Dropping a sender that waits passes on the capacity that it has collected.
pub proof fn law_cancel_returns_capacity<T>(
    state: QueueView<T, BoundedState>,
    key: usize,
    reserved: nat,
)
    requires
        state.extra.inv(),
        state.balanced(reserved),
        state.has_sender(key),
    ensures
        state.cancel(key).balanced(reserved),
        state.cancel(key) == state.with_semaphore(state.extra.semaphore.cancel(key)),
{
    let semaphore = state.extra.semaphore;
    let gone = semaphore.unregister(key);
    crate::bound::lemma_sender_accounted(state.extra, key);
    crate::permits::lemma_unregister_inv(semaphore, key);
    crate::permit_laws::law_grant_nothing(gone);
    crate::permit_laws::law_grant_total(gone, semaphore.waiters[key].permits);
}

/// Closing a channel and waiting for capacity take none of it.
pub proof fn law_balanced_otherwise<T>(
    state: QueueView<T, BoundedState>,
    key: usize,
    counted: bool,
    reserved: nat,
)
    requires
        state.balanced(reserved),
    ensures
        state.close(counted).balanced(reserved),
        state.register(key).balanced(reserved),
        state.add_sender().balanced(reserved),
        state.remove_sender().balanced(reserved),
        state.without_wakes().balanced(reserved),
{
}

/// The available capacity never exceeds the maximum capacity.
pub proof fn law_capacity_is_bounded<T>(state: QueueView<T, BoundedState>)
    requires
        state.extra.inv(),
    ensures
        state.extra.semaphore.permits <= state.extra.max_capacity,
{
}

/// What holds of every bounded channel is kept by every operation: its capacity
/// is bounded, and what waiting senders have collected is accounted for.
pub proof fn law_invariant_is_kept<T>(
    state: QueueView<T, BoundedState>,
    elem: T,
    counted: bool,
    waker: Waker,
)
    requires
        state.extra.inv(),
    ensures
        state.push(elem).extra.inv(),
        state.recv().extra.inv(),
        state.poll_recv(waker).extra.inv(),
        state.close(counted).extra.inv(),
        state.split().extra.inv(),
        state.add_sender().extra.inv(),
        state.remove_sender().extra.inv(),
        state.try_send(elem).extra.inv(),
        state.try_reserve().extra.inv(),
        state.unreserve().extra.inv(),
{
    let semaphore = state.extra.semaphore;
    crate::bound::lemma_release_inv(state.extra);
    crate::bound::lemma_restore_inv(state.extra);
    crate::bound::lemma_close_inv(state.extra);
    crate::bound::lemma_reset_inv(state.extra);
    crate::permits::lemma_counts_inv(semaphore, semaphore.shrink(1));
    crate::bound::lemma_counts_inv(state.extra, semaphore.shrink(1));
}

/// What holds of every bounded channel is kept while senders are added, polled
/// and dropped.
pub proof fn law_invariant_is_kept_by_senders<T>(
    state: QueueView<T, BoundedState>,
    key: usize,
    elem: T,
    waker: Waker,
)
    requires
        state.extra.inv(),
    ensures
        !state.has_sender(key) && key < usize::MAX ==> state.register(key).extra.inv(),
        state.has_sender(key) ==> {
            &&& state.poll_reserve(key, waker).extra.inv()
            &&& state.poll_send(key, elem, waker).extra.inv()
            &&& state.cancel(key).extra.inv()
        },
{
    if state.has_sender(key) {
        crate::bound::lemma_poll_inv(state.extra, key, waker);
        crate::bound::lemma_cancel_inv(state.extra, key);
        if state.reserve_outcome(key) is Closed {
            let polled = state.extra.semaphore.poll(key, waker);
            crate::bound::lemma_cancel_inv(state.extra.with_semaphore(polled), key);
        }
    } else if key < usize::MAX {
        crate::bound::lemma_register_inv(state.extra, key);
    }
}

/// A sender that has been given capacity keeps it, whatever happens to
/// reservations: polling it succeeds as long as the channel is open.
pub proof fn law_woken_sender_resolves<T>(state: QueueView<T, BoundedState>, key: usize)
    requires
        state.extra.inv(),
        state.has_sender(key),
        state.extra.semaphore.waiters[key].state is Woken,
        !state.extra.semaphore.closed,
    ensures
        state.reserve_outcome(key) == Acquisition::Acquired(1),
        state.unreserve().has_sender(key),
        state.unreserve().reserve_outcome(key) == Acquisition::Acquired(1),
        state.unreserve().extra.semaphore.outstanding >= 1,
{
    let semaphore = state.extra.semaphore;
    assert(state.extra.sender_inv(key));
    assert(semaphore.waiter_inv(key));
    crate::permits::lemma_grant_waiters(semaphore, 1);
    crate::bound::lemma_restore_inv(state.extra);
    crate::bound::lemma_sender_accounted(state.unreserve().extra, key);
}

/// While the whole capacity is accounted for, there are no more elements than
/// the maximum capacity, and a channel with reservations is not disconnected.
pub proof fn law_reserved_is_connected<T>(state: QueueView<T, BoundedState>, reserved: nat)
    requires
        state.balanced(reserved),
    ensures
        state.elems.len() <= state.extra.max_capacity,
        reserved > 0 || state.extra.semaphore.outstanding > 0 ==> !(state.recv_result()
            == Err::<T, _>(TryRecvError::Disconnected)),
{
}

/// Splitting a channel makes its whole capacity available; splitting an idle
/// channel leaves its capacity alone.
pub proof fn law_split_resets_capacity<T>(state: QueueView<T, BoundedState>)
    requires
        state.extra.inv(),
    ensures
        state.extra.idle() ==> state.split().extra == state.extra,
        state.extra.semaphore.queue.len() == 0 ==> state.split().extra == state.extra.with_semaphore(
            SemaphoreView { permits: state.extra.max_capacity, ..state.extra.semaphore },
        ),
{
    let semaphore = state.extra.semaphore;
    let missing = (state.extra.max_capacity - semaphore.permits) as nat;
    crate::permit_laws::law_grant_nothing(semaphore);
    if semaphore.queue.len() == 0 {
        crate::permits::lemma_served(semaphore, missing, 0, 0);
        crate::permits::lemma_complete_nothing(semaphore);
    }
}

/// Receiving an element from a full channel completes the sender that has
/// waited longest, and no other.
pub proof fn law_recv_unblocks_sender<T>(state: QueueView<T, BoundedState>, reserved: nat)
    requires
        state.extra.inv(),
        state.balanced(reserved),
        state.elems.len() > 0,
        state.extra.semaphore.queue.len() > 0,
    ensures
        ({
            let semaphore = state.extra.semaphore;
            let first = semaphore.queue[0];
            let after = state.recv();
            &&& after.reserve_outcome(first) == Acquisition::Acquired(1)
            &&& after.extra.semaphore.wakes == semaphore.wakes.push(
                semaphore.waiters[first].waker->0,
            )
            &&& after.extra.semaphore.queue == semaphore.queue.skip(1)
            &&& after.extra.semaphore.permits == 0
        }),
{
    let semaphore = state.extra.semaphore;
    let first = semaphore.queue[0];
    assert(semaphore.queue.contains(first));
    assert(semaphore.waiter_inv(first));
    assert(state.extra.sender_inv(first));
    assert(semaphore.demand(1) == 1) by {
        reveal_with_fuel(SemaphoreView::demand, 2);
    }
    if semaphore.queue.len() > 1 {
        let second = semaphore.queue[1];
        assert(semaphore.queue.contains(second));
        assert(semaphore.waiter_inv(second));
        assert(semaphore.demand(2) > 1) by {
            reveal_with_fuel(SemaphoreView::demand, 3);
        }
    }
    crate::permits::lemma_served(semaphore, 1, 1, semaphore.queue.len());
    assert(semaphore.queue.take(1)[0] == first);
    assert(semaphore.queue.take(1).contains(first));
    if semaphore.queue.len() > 1 {
        assert(semaphore.queue[1] != first);
    }
    assert(state.recv().extra.semaphore.wakes =~= semaphore.wakes.push(
        semaphore.waiters[first].waker->0,
    ));
}

/// After a bounded channel has been closed, every attempt to send or reserve is
/// refused, waiting senders fail, but capacity that was reserved before can
/// still be used.
pub proof fn law_bounded_close<T>(
    state: QueueView<T, BoundedState>,
    counted: bool,
    key: usize,
    elem: T,
)
    ensures
        state.close(counted).try_send_result(elem) == Err::<(), _>(TrySendError::Closed(elem)),
        state.close(counted).try_reserve_result() == Err::<(), _>(TrySendError::Closed(())),
        state.close(counted).reserve_outcome(key) is Closed,
        state.close(counted).push(elem).elems == state.elems.push(elem),
{
}

/// Closing a bounded channel wakes every sender that waits for capacity.
pub proof fn law_close_wakes_senders<T>(
    state: QueueView<T, BoundedState>,
    counted: bool,
    key: usize,
)
    requires
        state.extra.inv(),
        state.extra.semaphore.waiters.dom().contains(key),
        state.extra.semaphore.waiters[key].state is Waiting,
    ensures
        state.close(counted).extra.semaphore.wakes.skip(
            state.extra.semaphore.wakes.len() as int,
        ).contains(state.extra.semaphore.waiters[key].waker->0),
        state.close(counted).extra.semaphore.queue.len() == 0,
{
    crate::permit_laws::law_close(state.extra.semaphore, key, 1);
}

/// Reserving capacity and waiting for it leave the elements alone, and sending
/// adds its element at the back, but only once there is capacity.
pub proof fn law_bounded_elements_stay<T>(
    state: QueueView<T, BoundedState>,
    key: usize,
    elem: T,
    waker: Waker,
)
    ensures
        state.try_reserve().elems == state.elems,
        state.unreserve().elems == state.elems,
        state.register(key).elems == state.elems,
        state.poll_reserve(key, waker).elems == state.elems,
        state.cancel(key).elems == state.elems,
        state.poll_send(key, elem, waker).elems == (if state.reserve_outcome(key) is Acquired {
            state.elems.push(elem)
        } else {
            state.elems
        }),
{
}

/// The maximum capacity of a channel never changes.
pub proof fn law_max_capacity_is_constant<T>(
    state: QueueView<T, BoundedState>,
    elem: T,
    key: usize,
    counted: bool,
    waker: Waker,
)
    ensures
        ({
            let max_capacity = state.extra.max_capacity;
            &&& state.push(elem).extra.max_capacity == max_capacity
            &&& state.recv().extra.max_capacity == max_capacity
            &&& state.poll_recv(waker).extra.max_capacity == max_capacity
            &&& state.close(counted).extra.max_capacity == max_capacity
            &&& state.split().extra.max_capacity == max_capacity
            &&& state.add_sender().extra.max_capacity == max_capacity
            &&& state.remove_sender().extra.max_capacity == max_capacity
            &&& state.try_send(elem).extra.max_capacity == max_capacity
            &&& state.try_reserve().extra.max_capacity == max_capacity
            &&& state.unreserve().extra.max_capacity == max_capacity
            &&& state.poll_reserve(key, waker).extra.max_capacity == max_capacity
            &&& state.poll_send(key, elem, waker).extra.max_capacity == max_capacity
            &&& state.register(key).extra.max_capacity == max_capacity
            &&& state.cancel(key).extra.max_capacity == max_capacity
        }),
{
}

/// Starting to send or reserve and dropping the operation before it was polled
/// leaves the channel as it was.
pub proof fn law_register_and_cancel<T>(state: QueueView<T, BoundedState>, key: usize)
    requires
        state.extra.inv(),
        !state.has_sender(key),
    ensures
        state.register(key).cancel(key) == state,
{
    let registered = state.extra.semaphore.register(key, 1);
    crate::permits::lemma_register_inv(state.extra.semaphore, key, 1);
    assert(registered.waiter_inv(key));
    assert(registered.unregister(key).waiters =~= state.extra.semaphore.waiters);
}

/// Sending with a future is the same as attempting to send, if there is
/// capacity.
pub proof fn law_send_without_waiting<T>(
    state: QueueView<T, BoundedState>,
    key: usize,
    elem: T,
    waker: Waker,
)
    requires
        state.extra.inv(),
        !state.has_sender(key),
        key < usize::MAX,
        state.try_send_result(elem) is Ok,
    ensures
        state.register(key).reserve_outcome(key) == Acquisition::Acquired(1),
        state.register(key).poll_send(key, elem, waker) == state.try_send(elem),
{
    let semaphore = state.extra.semaphore;
    let registered = semaphore.register(key, 1);
    let polled = registered.poll(key, waker);
    crate::bound::lemma_register_inv(state.extra, key);
    crate::bound::lemma_room_for_sender(state.extra.with_semaphore(registered), key);
    assert(registered.waiter_inv(key));
    assert(polled.unregister(key).waiters =~= semaphore.waiters);
}

/// All permits that are counted as handed out are those that waiting senders
/// have collected.
pub proof fn law_senders_are_accounted<T>(state: QueueView<T, BoundedState>, key: usize)
    requires
        state.extra.inv(),
    ensures
        state.extra.semaphore.collected() == state.extra.semaphore.outstanding,
        state.has_sender(key) ==> state.extra.semaphore.waiters[key].permits
            <= state.extra.semaphore.outstanding,
{
    if state.has_sender(key) {
        crate::bound::lemma_sender_accounted(state.extra, key);
    }
}

} // verus!

//! What each operation of a channel does to what the channel stores.

use crate::bound::{BoundState, BoundedState, UnboundedState};
use crate::error::{SendError, TryRecvError, TrySendError};
use crate::mask::MaskView;
use crate::permits::{Acquisition, SemaphoreView};
use crate::queue::QueueView;
use crate::semaphore::TryAcquireError;
use crate::task::{Poll, Waker};
use crate::waiter::{WaiterState, WaiterView};
use vstd::prelude::*;

verus! {

/// Notifying a registered task wakes it once; without a task nothing happens.
pub proof fn law_notify(waker: Option<Waker>, wakes: Seq<Waker>)
    ensures
        waker is None ==> wakes + crate::task::wakes_of(waker) == wakes,
        waker matches Some(task) ==> wakes + crate::task::wakes_of(waker) == wakes.push(task),
{
    assert(waker is None ==> wakes + crate::task::wakes_of(waker) =~= wakes);
    assert(waker matches Some(task) ==> wakes + crate::task::wakes_of(waker) =~= wakes.push(task));
}

/// Closing a channel keeps the number of counted senders, splitting it adds one
/// sender and does not open it again, and uncounted senders are forgotten.
pub proof fn law_mask(mask: MaskView)
    ensures
        mask.close(true).closed,
        mask.close(true).senders == mask.senders,
        mask.close(false).closed,
        mask.close(false).senders == 0,
        mask.reset(true).closed == mask.closed,
        mask.reset(true).senders == mask.senders + 1,
        mask.reset(false).closed == mask.closed,
        mask.reset(false).senders == 0,
        mask.add_sender().closed == mask.closed,
        mask.add_sender().senders == mask.senders + 1,
        mask.has_room() <==> 2 * (mask.senders + 1) + 1 <= usize::MAX,
{
}

/// The number of senders goes down by one with each sender that is removed, and
/// the channel is closed with the last one.
pub proof fn law_mask_remove_sender(mask: MaskView)
    requires
        mask.senders > 0,
    ensures
        mask.remove_sender().senders + 1 == mask.senders,
        mask.remove_sender().closed <==> mask.closed || mask.remove_sender().senders == 0,
{
}

/// A new channel is open, has no counted senders and nobody who waits, and holds
/// the given elements.
pub proof fn law_fresh<T, E: BoundState>(elems: Seq<T>, extra: E)
    ensures
        ({
            let state = QueueView::fresh(elems, extra);
            &&& state.elems == elems
            &&& state.extra == extra
            &&& !state.mask.closed
            &&& state.mask.senders == 0
            &&& state.waker is None
            &&& state.wakes.len() == 0
        }),
{
}

/// A queued element becomes the last one, and the receiver that waits is woken.
pub proof fn law_push<T, E: BoundState>(state: QueueView<T, E>, elem: T)
    ensures
        state.waker is None ==> state.push(elem) == (QueueView {
            elems: state.elems.push(elem),
            ..state
        }),
        state.waker matches Some(task) ==> state.push(elem) == (QueueView {
            elems: state.elems.push(elem),
            wakes: state.wakes.push(task),
            ..state
        }),
{
    law_notify(state.waker, state.wakes);
}

/// As long as there are elements, the first one is received, also from a closed
/// channel, and the others keep their order.
pub proof fn law_recv_element<T, E: BoundState>(state: QueueView<T, E>, waker: Waker)
    requires
        state.elems.len() > 0,
    ensures
        state.recv_result() == Ok::<T, TryRecvError>(state.elems[0]),
        state.poll_result() == Poll::Ready(Some(state.elems[0])),
        state.poll_recv(waker) == state.recv(),
        ({
            let after = state.recv();
            &&& after.elems.len() + 1 == state.elems.len()
            &&& forall|i: int|
                0 <= i < after.elems.len() ==> #[trigger] after.elems[i] == state.elems[i + 1]
            &&& after.extra == state.extra.release()
            &&& after.mask == state.mask
            &&& after.waker == state.waker
            &&& after.wakes == state.wakes
        }),
{
}

/// Without elements nothing is received. The end is reported exactly if the
/// channel is closed and no capacity is in use or reserved; otherwise a task
/// that polls waits, and nothing else changes.
pub proof fn law_recv_nothing<T, E: BoundState>(state: QueueView<T, E>, waker: Waker)
    requires
        state.elems.len() == 0,
    ensures
        state.recv() == state,
        state.mask.closed && state.extra.idle() ==> {
            &&& state.recv_result() == Err::<T, _>(TryRecvError::Disconnected)
            &&& state.poll_result() == Poll::Ready(None::<T>)
            &&& state.poll_recv(waker) == state
        },
        !(state.mask.closed && state.extra.idle()) ==> {
            &&& state.recv_result() == Err::<T, _>(TryRecvError::Empty)
            &&& state.poll_result() == Poll::<Option<T>>::Pending
            &&& state.poll_recv(waker) == (QueueView { waker: Some(waker), ..state })
        },
{
}

/// Polling reports the end of the channel only if an attempt to receive reports
/// that it is disconnected.
pub proof fn law_poll_end<T, E: BoundState>(state: QueueView<T, E>)
    ensures
        state.poll_result() == Poll::Ready(None::<T>) <==> state.recv_result() == Err::<T, _>(
            TryRecvError::Disconnected,
        ),
        state.poll_result() == Poll::Ready(None::<T>) ==> state.elems.len() == 0
            && state.mask.closed,
        state.poll_result() is Pending <==> state.recv_result() == Err::<T, _>(TryRecvError::Empty),
{
}

/// Closing a channel keeps its elements, wakes the receiver that waits and
/// forgets its task.
pub proof fn law_close_effect<T, E: BoundState>(state: QueueView<T, E>, counted: bool)
    ensures
        ({
            let after = state.close(counted);
            &&& after.mask.closed
            &&& counted ==> after.mask.senders == state.mask.senders
            &&& !counted ==> after.mask.senders == 0
            &&& after.elems == state.elems
            &&& after.waker is None
            &&& state.waker is None ==> after.wakes == state.wakes
            &&& state.waker matches Some(task) ==> after.wakes == state.wakes.push(task)
            &&& after.extra == state.extra.close()
        }),
{
    law_notify(state.waker, state.wakes);
}

/// Splitting a channel counts one more sender, forgets the task of the receiver
/// without waking it and resets the capacity; elements and the closed flag stay.
pub proof fn law_split_effect<T, E: BoundState>(state: QueueView<T, E>)
    ensures
        ({
            let after = state.split();
            &&& after.mask.closed == state.mask.closed
            &&& after.mask.senders == state.mask.senders + 1
            &&& after.elems == state.elems
            &&& after.waker is None
            &&& after.wakes == state.wakes
            &&& after.extra == state.extra.reset()
            &&& state.can_split() <==> 2 * after.mask.senders + 1 <= usize::MAX
        }),
{
}

/// Adding a sender changes nothing but the number of senders.
pub proof fn law_add_sender_effect<T, E: BoundState>(state: QueueView<T, E>)
    ensures
        state.add_sender() == (QueueView {
            mask: MaskView { closed: state.mask.closed, senders: state.mask.senders + 1 },
            ..state
        }),
{
}

/// Removing a sender that is not the last one changes nothing but the number of
/// senders; with the last one the channel is closed and the receiver woken.
pub proof fn law_remove_sender_effect<T, E: BoundState>(state: QueueView<T, E>)
    requires
        state.mask.senders > 0,
    ensures
        ({
            let after = state.remove_sender();
            &&& after.mask.senders + 1 == state.mask.senders
            &&& after.elems == state.elems
            &&& after.extra == state.extra
            &&& state.mask.senders > 1 ==> {
                &&& after.mask.closed == state.mask.closed
                &&& after.waker == state.waker
                &&& after.wakes == state.wakes
            }
            &&& state.mask.senders == 1 ==> {
                &&& after.mask.closed
                &&& after.waker is None
                &&& state.waker is None ==> after.wakes == state.wakes
                &&& state.waker matches Some(task) ==> after.wakes == state.wakes.push(task)
            }
        }),
{
    law_notify(state.waker, state.wakes);
}

/// Taking the wakes empties their list and changes nothing else.
pub proof fn law_take_wakes<T, E: BoundState>(state: QueueView<T, E>)
    ensures
        state.without_wakes() == (QueueView { wakes: Seq::empty(), ..state }),
{
}

/// An unbounded queue never has capacity in use.
pub proof fn law_unbounded_state(extra: UnboundedState)
    ensures
        extra.idle(),
        extra.reset() == extra,
        extra.close() == extra,
        extra.release() == extra,
{
}

/// An unbounded channel accepts every element until it is closed; then it
/// returns the element and stays as it is.
pub proof fn law_send_effect<T>(state: QueueView<T, UnboundedState>, elem: T)
    ensures
        state.mask.closed ==> {
            &&& state.send_result(elem) == Err::<(), _>(SendError(elem))
            &&& state.send(elem) == state
        },
        !state.mask.closed ==> {
            &&& state.send_result(elem) == Ok::<(), SendError<T>>(())
            &&& state.send(elem).elems == state.elems.push(elem)
            &&& state.send(elem).mask == state.mask
            &&& state.send(elem).waker == state.waker
            &&& state.waker is None ==> state.send(elem).wakes == state.wakes
            &&& state.waker matches Some(task) ==> state.send(elem).wakes == state.wakes.push(task)
        },
{
    law_notify(state.waker, state.wakes);
}

/// A new bounded queue has the given capacity available and no senders that
/// wait.
pub proof fn law_bounded_fresh(permits: nat, max_capacity: nat)
    ensures
        ({
            let state = BoundedState::fresh(permits, max_capacity);
            &&& state.max_capacity == max_capacity
            &&& state.semaphore.permits == permits
            &&& state.semaphore.outstanding == 0
            &&& !state.semaphore.closed
            &&& state.semaphore.queue.len() == 0
            &&& state.semaphore.waiters == Map::<usize, WaiterView>::empty()
            &&& state.semaphore.wakes.len() == 0
        }),
{
}

/// Capacity for one element becomes available if nobody waits; otherwise the
/// first sender that waits gets it, is woken and leaves the queue.
pub proof fn law_grant_one(state: BoundedState)
    requires
        state.inv(),
        state.semaphore.permits < state.max_capacity,
    ensures
        ({
            let before = state.semaphore;
            let after = state.semaphore.grant(1);
            let first = before.queue[0];
            &&& after.closed == before.closed
            &&& before.queue.len() == 0 ==> {
                &&& after.permits == before.permits + 1
                &&& after.outstanding == before.outstanding
                &&& after.queue == before.queue
                &&& after.waiters == before.waiters
                &&& after.wakes == before.wakes
            }
            &&& before.queue.len() > 0 ==> {
                &&& after.permits == before.permits
                &&& before.outstanding + 1 <= usize::MAX ==> after.outstanding
                    == before.outstanding + 1
                &&& after.queue == before.queue.skip(1)
                &&& after.waiters == before.waiters.insert(
                    first,
                    WaiterView {
                        permits: 1,
                        state: WaiterState::Woken,
                        ..before.waiters[first]
                    },
                )
                &&& before.waiters[first].waker is Some
                &&& after.wakes == before.wakes.push(before.waiters[first].waker->0)
            }
        }),
{
    let before = state.semaphore;
    if before.queue.len() == 0 {
        crate::permit_effects::law_grant_to_nobody(before, 1);
    } else {
        let first = before.queue[0];
        assert(before.queue.contains(first));
        assert(before.waiter_inv(first));
        assert(state.sender_inv(first));
        crate::permit_effects::law_grant_first(before, 1);
        crate::permits::lemma_complete_inv(before, 1);
        crate::permits::lemma_complete_nothing(before);
        crate::permits::lemma_complete_step(before, 0);
        crate::permit_laws::law_grant_nothing(before.complete(1));
    }
}

/// Receiving an element gives back its capacity, unless all capacity is already
/// available or with waiting senders.
pub proof fn law_release(state: BoundedState)
    ensures
        state.semaphore.permits + state.semaphore.outstanding < state.max_capacity
            ==> state.release().semaphore == state.semaphore.grant(1),
        state.semaphore.permits + state.semaphore.outstanding >= state.max_capacity
            ==> state.release().semaphore == state.semaphore,
        state.release().max_capacity == state.max_capacity,
{
}

/// Resetting the capacity adds what is missing; without waiting senders all
/// capacity is then available and nothing else has changed.
pub proof fn law_reset(state: BoundedState)
    requires
        state.inv(),
    ensures
        state.reset().max_capacity == state.max_capacity,
        state.reset().semaphore == state.semaphore.grant(
            (state.max_capacity - state.semaphore.permits) as nat,
        ),
        state.semaphore.queue.len() == 0 ==> state.reset().semaphore == (SemaphoreView {
            permits: state.max_capacity,
            ..state.semaphore
        }),
{
    if state.semaphore.queue.len() == 0 {
        crate::permit_effects::law_grant_to_nobody(
            state.semaphore,
            (state.max_capacity - state.semaphore.permits) as nat,
        );
    }
}

/// A bounded queue is idle exactly if all of its capacity is available, and
/// closing it closes the semaphore and nothing else.
pub proof fn law_idle_and_close(state: BoundedState)
    ensures
        state.idle() <==> state.semaphore.permits == state.max_capacity,
        state.close().semaphore == state.semaphore.close(),
        state.close().max_capacity == state.max_capacity,
{
}

/// Capacity that is given back is available or goes to a waiting sender; at the
/// maximum capacity nothing changes.
pub proof fn law_restore(state: BoundedState)
    ensures
        state.semaphore.permits < state.max_capacity ==> state.restore().semaphore
            == state.semaphore.grant(1),
        state.semaphore.permits >= state.max_capacity ==> state.restore().semaphore
            == state.semaphore,
        state.restore().max_capacity == state.max_capacity,
{
}

/// The error of a refused permit says whether the channel is closed or full, and
/// hands the element back.
pub proof fn law_refused<T>(elem: T)
    ensures
        TrySendError::refused(TryAcquireError::Closed, elem) == TrySendError::Closed(elem),
        TrySendError::refused(TryAcquireError::NoPermits, elem) == TrySendError::Full(elem),
{
}

/// Reserving capacity at once succeeds exactly if the channel is open and has
/// capacity available, of which it then takes one; a refusal says why and
/// changes nothing.
pub proof fn law_try_reserve<T>(state: QueueView<T, BoundedState>)
    ensures
        state.try_reserve_result() is Err ==> state.try_reserve() == state,
        state.extra.semaphore.closed ==> state.try_reserve_result() == Err::<(), _>(
            TrySendError::Closed(()),
        ),
        !state.extra.semaphore.closed && state.extra.semaphore.permits == 0
            ==> state.try_reserve_result() == Err::<(), _>(TrySendError::Full(())),
        !state.extra.semaphore.closed && state.extra.semaphore.permits > 0 ==> {
            let after = state.try_reserve();
            &&& state.try_reserve_result() == Ok::<(), TrySendError<()>>(())
            &&& after.mask == state.mask
            &&& after.elems == state.elems
            &&& after.waker == state.waker
            &&& after.wakes == state.wakes
            &&& after.extra.max_capacity == state.extra.max_capacity
            &&& after.extra.semaphore == (SemaphoreView {
                permits: (state.extra.semaphore.permits - 1) as nat,
                ..state.extra.semaphore
            })
        },
{
}

/// Sending at once succeeds exactly if reserving does. The element becomes the
/// last one, capacity for it is taken, and the receiver that waits is woken; a
/// refusal says why, hands the element back and changes nothing.
pub proof fn law_try_send<T>(state: QueueView<T, BoundedState>, elem: T)
    ensures
        state.try_send_result(elem) is Ok <==> state.try_reserve_result() is Ok,
        state.try_send_result(elem) is Err ==> state.try_send(elem) == state,
        state.extra.semaphore.closed ==> state.try_send_result(elem) == Err::<(), _>(
            TrySendError::Closed(elem),
        ),
        !state.extra.semaphore.closed && state.extra.semaphore.permits == 0
            ==> state.try_send_result(elem) == Err::<(), _>(TrySendError::Full(elem)),
        !state.extra.semaphore.closed && state.extra.semaphore.permits > 0 ==> {
            let after = state.try_send(elem);
            &&& state.try_send_result(elem) == Ok::<(), TrySendError<T>>(())
            &&& after.mask == state.mask
            &&& after.elems == state.elems.push(elem)
            &&& after.waker == state.waker
            &&& state.waker is None ==> after.wakes == state.wakes
            &&& state.waker matches Some(task) ==> after.wakes == state.wakes.push(task)
            &&& after.extra.max_capacity == state.extra.max_capacity
            &&& after.extra.semaphore == (SemaphoreView {
                permits: (state.extra.semaphore.permits - 1) as nat,
                ..state.extra.semaphore
            })
        },
{
    law_notify(state.waker, state.wakes);
}

/// Sending regardless of the capacity always queues the element and wakes the
/// receiver that waits; it takes available capacity only if it is to reduce it.
pub proof fn law_unbounded_send_effect<T>(
    state: QueueView<T, BoundedState>,
    reducing: bool,
    elem: T,
)
    ensures
        ({
            let permits = state.extra.semaphore.permits;
            let after = state.unbounded_send(reducing, elem);
            &&& after.mask == state.mask
            &&& after.elems == state.elems.push(elem)
            &&& after.waker == state.waker
            &&& state.waker is None ==> after.wakes == state.wakes
            &&& state.waker matches Some(task) ==> after.wakes == state.wakes.push(task)
            &&& after.extra.max_capacity == state.extra.max_capacity
            &&& !reducing || permits == 0 ==> after.extra.semaphore == state.extra.semaphore
            &&& reducing && permits > 0 ==> after.extra.semaphore == (SemaphoreView {
                permits: (permits - 1) as nat,
                ..state.extra.semaphore
            })
        }),
{
    law_notify(state.waker, state.wakes);
}

/// Returning reserved capacity gives back capacity for one element, up to the
/// maximum capacity, and touches neither the elements nor the receiver.
pub proof fn law_unreserve<T>(state: QueueView<T, BoundedState>)
    ensures
        ({
            let after = state.unreserve();
            &&& after.mask == state.mask
            &&& after.elems == state.elems
            &&& after.waker == state.waker
            &&& after.wakes == state.wakes
            &&& after.extra.max_capacity == state.extra.max_capacity
            &&& state.extra.semaphore.permits < state.extra.max_capacity
                ==> after.extra.semaphore == state.extra.semaphore.grant(1)
            &&& state.extra.semaphore.permits >= state.extra.max_capacity
                ==> after.extra.semaphore == state.extra.semaphore
        }),
{
}

/// A sender asks for capacity for one element, and making it takes none.
pub proof fn law_register_sender<T>(state: QueueView<T, BoundedState>, key: usize)
    ensures
        state.register(key).has_sender(key),
        state.register(key).extra.semaphore == (SemaphoreView {
            waiters: state.extra.semaphore.waiters.insert(
                key,
                WaiterView { wants: 1, permits: 0, state: WaiterState::Inert, waker: None },
            ),
            ..state.extra.semaphore
        }),
        state.register(key).extra.max_capacity == state.extra.max_capacity,
        state.register(key).mask == state.mask,
        state.register(key).elems == state.elems,
        state.register(key).waker == state.waker,
        state.register(key).wakes == state.wakes,
{
}

/// Polling a sender touches neither the elements nor the receiver.
pub proof fn law_poll_reserve_keeps<T>(
    state: QueueView<T, BoundedState>,
    key: usize,
    waker: Waker,
)
    ensures
        ({
            let after = state.poll_reserve(key, waker);
            &&& after.mask == state.mask
            &&& after.elems == state.elems
            &&& after.waker == state.waker
            &&& after.wakes == state.wakes
            &&& after.extra.max_capacity == state.extra.max_capacity
        }),
{
}

/// A sender of a closed channel fails, and the channel is then as if the sender
/// had been dropped.
pub proof fn law_poll_reserve_closed<T>(
    state: QueueView<T, BoundedState>,
    key: usize,
    waker: Waker,
)
    requires
        state.extra.inv(),
        state.has_sender(key),
        state.extra.semaphore.closed,
    ensures
        state.reserve_outcome(key) is Closed,
        state.poll_reserve(key, waker) == state.cancel(key),
{
    let polled = state.extra.semaphore.poll(key, waker);
    assert(polled.waiters.remove(key) =~= state.extra.semaphore.waiters.remove(key));
    assert(polled.unregister(key) == state.extra.semaphore.unregister(key));
}

/// A sender that waits keeps its place, and nothing changes.
pub proof fn law_poll_reserve_waiting<T>(
    state: QueueView<T, BoundedState>,
    key: usize,
    waker: Waker,
)
    requires
        state.extra.inv(),
        state.has_sender(key),
        !state.extra.semaphore.closed,
        state.extra.semaphore.waiters[key].state is Waiting,
    ensures
        state.reserve_outcome(key) is Pending,
        state.poll_reserve(key, waker) == state,
{
}

/// A sender that has been woken gets the capacity that it has collected and is
/// gone; the available capacity stays.
pub proof fn law_poll_reserve_woken<T>(
    state: QueueView<T, BoundedState>,
    key: usize,
    waker: Waker,
)
    requires
        state.extra.inv(),
        state.has_sender(key),
        !state.extra.semaphore.closed,
        state.extra.semaphore.waiters[key].state is Woken,
    ensures
        state.reserve_outcome(key) == Acquisition::Acquired(1),
        state.extra.semaphore.outstanding > 0,
        state.poll_reserve(key, waker).extra.semaphore == (SemaphoreView {
            outstanding: (state.extra.semaphore.outstanding - 1) as nat,
            waiters: state.extra.semaphore.waiters.remove(key),
            ..state.extra.semaphore
        }),
{
    let before = state.extra.semaphore;
    let polled = before.poll(key, waker);
    assert(before.waiter_inv(key));
    assert(state.extra.sender_inv(key));
    crate::bound::lemma_sender_accounted(state.extra, key);
    assert(polled.waiters.remove(key) =~= before.waiters.remove(key));
    assert(!before.queue.contains(key));
}

/// A sender that is polled for the first time while capacity is available takes
/// it and is gone.
pub proof fn law_poll_reserve_takes<T>(
    state: QueueView<T, BoundedState>,
    key: usize,
    waker: Waker,
)
    requires
        state.extra.inv(),
        state.has_sender(key),
        !state.extra.semaphore.closed,
        state.extra.semaphore.waiters[key].state is Inert,
        state.extra.semaphore.permits > 0,
    ensures
        state.reserve_outcome(key) == Acquisition::Acquired(1),
        state.poll_reserve(key, waker).extra.semaphore == (SemaphoreView {
            permits: (state.extra.semaphore.permits - 1) as nat,
            waiters: state.extra.semaphore.waiters.remove(key),
            ..state.extra.semaphore
        }),
{
    let before = state.extra.semaphore;
    let polled = before.poll(key, waker);
    assert(before.waiter_inv(key));
    assert(state.extra.sender_inv(key));
    crate::bound::lemma_room_for_sender(state.extra, key);
    assert(polled.waiters.remove(key) =~= before.waiters.remove(key));
    assert(!before.queue.contains(key));
}

/// A sender that is polled for the first time without capacity waits behind all
/// senders that already wait.
pub proof fn law_poll_reserve_waits<T>(
    state: QueueView<T, BoundedState>,
    key: usize,
    waker: Waker,
)
    requires
        state.extra.inv(),
        state.has_sender(key),
        !state.extra.semaphore.closed,
        state.extra.semaphore.waiters[key].state is Inert,
        state.extra.semaphore.permits == 0,
    ensures
        state.reserve_outcome(key) is Pending,
        state.poll_reserve(key, waker).extra.semaphore == (SemaphoreView {
            queue: state.extra.semaphore.queue.push(key),
            waiters: state.extra.semaphore.waiters.insert(
                key,
                WaiterView {
                    wants: 1,
                    permits: 0,
                    state: WaiterState::Waiting,
                    waker: Some(waker),
                },
            ),
            ..state.extra.semaphore
        }),
{
    assert(state.extra.semaphore.waiter_inv(key));
    assert(state.extra.sender_inv(key));
}

/// Polling to send an element polls for capacity; the element is queued exactly
/// if the capacity was acquired.
pub proof fn law_poll_send<T>(
    state: QueueView<T, BoundedState>,
    key: usize,
    elem: T,
    waker: Waker,
)
    ensures
        state.reserve_outcome(key) is Acquired ==> {
            let after = state.poll_send(key, elem, waker);
            &&& after.elems == state.elems.push(elem)
            &&& state.waker is None ==> after.wakes == state.wakes
            &&& state.waker matches Some(task) ==> after.wakes == state.wakes.push(task)
            &&& after.waker == state.waker
            &&& after.mask == state.mask
            &&& after.extra == state.poll_reserve(key, waker).extra
        },
        !(state.reserve_outcome(key) is Acquired) ==> state.poll_send(key, elem, waker)
            == state.poll_reserve(key, waker),
{
    law_notify(state.waker, state.wakes);
}

/// Dropping a sender that has got no capacity removes it and changes nothing
/// else; one that has got capacity gives it back like reserved capacity.
pub proof fn law_cancel_sender<T>(state: QueueView<T, BoundedState>, key: usize)
    requires
        state.extra.inv(),
        state.has_sender(key),
    ensures
        ({
            let before = state.extra.semaphore;
            let gone = before.unregister(key);
            let after = state.cancel(key);
            &&& after.mask == state.mask
            &&& after.elems == state.elems
            &&& after.waker == state.waker
            &&& after.wakes == state.wakes
            &&& after.extra.max_capacity == state.extra.max_capacity
            &&& before.waiters[key].permits == 0 || before.permits == state.extra.max_capacity
                ==> after.extra.semaphore == gone
            &&& before.waiters[key].permits > 0 && before.permits < state.extra.max_capacity
                ==> after.extra.semaphore == gone.grant(1)
        }),
{
}

/// Of two senders that start to wait one after the other, the second gets no
/// capacity from a received element before the first has got its own.
pub proof fn law_senders_wait_in_order<T>(
    state: QueueView<T, BoundedState>,
    first: usize,
    second: usize,
    first_waker: Waker,
    second_waker: Waker,
)
    requires
        state.extra.inv(),
        state.has_sender(first),
        state.has_sender(second),
        first != second,
        state.extra.semaphore.waiters[first].state is Inert,
        state.extra.semaphore.waiters[second].state is Inert,
        state.reserve_outcome(first) is Pending,
    ensures
        ({
            let waiting = state.poll_reserve(first, first_waker).poll_reserve(
                second,
                second_waker,
            );
            let after = waiting.recv();
            &&& state.poll_reserve(first, first_waker).reserve_outcome(second) is Pending
            &&& waiting.reserve_outcome(first) is Pending
            &&& waiting.reserve_outcome(second) is Pending
            &&& after.reserve_outcome(second) is Pending
            &&& state.extra.semaphore.queue.len() == 0 && state.elems.len() > 0
                && state.extra.semaphore.outstanding < state.extra.max_capacity
                ==> after.reserve_outcome(first) == Acquisition::Acquired(1)
                && after.extra.semaphore.wakes == state.extra.semaphore.wakes.push(first_waker)
        }),
{
    let before = state.extra.semaphore;
    assert(before.waiter_inv(first));
    assert(before.waiter_inv(second));
    assert(state.extra.sender_inv(first));
    assert(state.extra.sender_inv(second));
    let one = state.poll_reserve(first, first_waker);
    law_poll_reserve_waits(state, first, first_waker);
    crate::bound::lemma_poll_inv(state.extra, first, first_waker);
    let two = one.poll_reserve(second, second_waker);
    law_poll_reserve_waits(one, second, second_waker);
    crate::bound::lemma_poll_inv(one.extra, second, second_waker);
    assert(two.extra.semaphore.queue =~= before.queue.push(first).push(second));
    law_grant_one(two.extra);
    let head = two.extra.semaphore.queue[0];
    assert(head != second) by {
        if before.queue.len() > 0 {
            assert(before.queue.contains(before.queue[0]));
        }
    }
}

/// An open bounded channel accepts exactly as many elements at once as it has
/// capacity available, keeps them in the order in which they were sent, and then
/// hands each further element back as one that it is too full for.
pub proof fn law_send_until_full<T>(state: QueueView<T, BoundedState>, elems: Seq<T>, elem: T)
    requires
        !state.extra.semaphore.closed,
        elems.len() <= state.extra.semaphore.permits,
    ensures
        sent_all(state, elems).elems == state.elems + elems,
        sent_all(state, elems).extra.semaphore == (SemaphoreView {
            permits: (state.extra.semaphore.permits - elems.len()) as nat,
            ..state.extra.semaphore
        }),
        sent_all(state, elems).try_send_result(elem) is Ok <==> elems.len()
            < state.extra.semaphore.permits,
        sent_all(state, elems).try_send_result(elem) is Err ==> sent_all(
            state,
            elems,
        ).try_send_result(elem) == Err::<(), _>(TrySendError::Full(elem)),
    decreases elems.len(),
{
    if elems.len() == 0 {
        assert(state.elems + elems =~= state.elems);
    } else {
        let rest = elems.drop_last();
        law_send_until_full(state, rest, elems.last());
        law_try_send(sent_all(state, rest), elems.last());
        assert((state.elems + rest).push(elems.last()) =~= state.elems + elems);
    }
}

/// The state after attempts to send all of `elems` at once, one after the other.
pub open spec fn sent_all<T>(state: QueueView<T, BoundedState>, elems: Seq<T>) -> QueueView<
    T,
    BoundedState,
>
    decreases elems.len(),
{
    if elems.len() == 0 {
        state
    } else {
        sent_all(state, elems.drop_last()).try_send(elems.last())
    }
}

} // verus!

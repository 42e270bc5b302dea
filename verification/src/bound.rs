//! The part of a queue's state that depends on whether it is bounded.

use crate::permits::{Acquisition, SemaphoreView};
use crate::task::Waker;
use crate::waiter::WaiterView;
use vstd::prelude::*;

verus! {

/// The part of a queue's state that depends on whether it is bounded.
pub trait BoundState: Sized {
    /// The state after resetting the capacity.
    spec fn reset(self) -> Self;

    /// The state after closing the queue.
    spec fn close(self) -> Self;

    /// The state after the capacity for one element is no longer in use.
    spec fn release(self) -> Self;

    /// Whether no capacity is in use or reserved.
    spec fn idle(self) -> bool;
}

/// The state of an unbounded queue.
pub struct UnboundedState;

impl BoundState for UnboundedState {
    open spec fn reset(self) -> Self {
        self
    }

    open spec fn close(self) -> Self {
        self
    }

    open spec fn release(self) -> Self {
        self
    }

    open spec fn idle(self) -> bool {
        true
    }
}

/// The state of a bounded queue.
pub struct BoundedState {
    /// The state of the semaphore sequencing the blocked senders.
    pub semaphore: SemaphoreView,
    /// The queue's capacity.
    pub max_capacity: nat,
}

impl BoundState for BoundedState {
    open spec fn reset(self) -> Self {
        let missing = (self.max_capacity - self.semaphore.permits) as nat;
        BoundedState { semaphore: self.semaphore.grant(missing), ..self }
    }

    open spec fn close(self) -> Self {
        BoundedState { semaphore: self.semaphore.close(), ..self }
    }

    open spec fn release(self) -> Self {
        if self.semaphore.permits + self.semaphore.outstanding < self.max_capacity {
            BoundedState { semaphore: self.semaphore.grant(1), ..self }
        } else {
            self
        }
    }

    open spec fn idle(self) -> bool {
        self.semaphore.permits == self.max_capacity
    }
}

impl BoundedState {
    /// The state of a new queue with `permits` of `max_capacity` available.
    pub open spec fn fresh(permits: nat, max_capacity: nat) -> Self {
        BoundedState {
            semaphore: SemaphoreView {
                permits,
                outstanding: 0,
                closed: false,
                queue: Seq::empty(),
                waiters: Map::empty(),
                wakes: Seq::empty(),
            },
            max_capacity,
        }
    }
}

impl BoundedState {
    /// What holds of every waiting sender: it waits for the capacity for one
    /// element, and it has got it once it has been notified, unless the queue
    /// was closed.
    pub open spec fn sender_inv(self, key: usize) -> bool {
        let waiter = self.semaphore.waiters[key];
        &&& waiter.wants == 1
        &&& waiter.state is Woken && !self.semaphore.closed ==> waiter.permits == 1
    }

    /// What holds of every bounded queue: the available capacity does not exceed
    /// the maximum capacity, and all permits that are counted as handed out are
    /// those that waiting senders have collected.
    pub open spec fn inv(self) -> bool {
        &&& self.semaphore.inv()
        &&& 0 < self.max_capacity <= usize::MAX
        &&& self.semaphore.permits <= self.max_capacity
        &&& self.semaphore.collected() == self.semaphore.outstanding
        &&& !self.semaphore.waiters.dom().contains(usize::MAX)
        &&& forall|key: usize|
            self.semaphore.waiters.dom().contains(key) ==> #[trigger] self.sender_inv(key)
    }

    /// The state with another state of the semaphore.
    pub open spec fn with_semaphore(self, semaphore: SemaphoreView) -> Self {
        BoundedState { semaphore, ..self }
    }

    /// The state after capacity for one element was given back, which can not
    /// exceed the maximum capacity.
    pub open spec fn restore(self) -> Self {
        if self.semaphore.permits < self.max_capacity {
            self.with_semaphore(self.semaphore.grant(1))
        } else {
            self
        }
    }

    /// The state after dropping a waiting sender, which gives back the capacity
    /// that it has collected.
    pub open spec fn cancel(self, key: usize) -> Self {
        let gone = self.with_semaphore(self.semaphore.unregister(key));
        if self.semaphore.waiters[key].permits > 0 {
            gone.restore()
        } else {
            gone
        }
    }
}

/// A new queue satisfies the invariant.
pub proof fn lemma_fresh_inv(permits: nat, max_capacity: nat)
    requires
        permits <= max_capacity,
        0 < max_capacity <= usize::MAX,
    ensures
        BoundedState::fresh(permits, max_capacity).inv(),
{
    let state = BoundedState::fresh(permits, max_capacity);
    lemma_collected_nothing(state.semaphore, usize::MAX as nat + 1);
}

/// Without waiters nothing has been collected.
pub proof fn lemma_collected_nothing(semaphore: SemaphoreView, bound: nat)
    requires
        semaphore.waiters == Map::<usize, WaiterView>::empty(),
    ensures
        semaphore.collected_below(bound) == 0,
    decreases bound,
{
    if bound > 0 {
        lemma_collected_nothing(semaphore, (bound - 1) as nat);
    }
}

/// What senders that want one permit each have collected can be counted.
proof fn lemma_collected_fits(semaphore: SemaphoreView)
    requires
        !semaphore.waiters.dom().contains(usize::MAX),
        forall|key: usize|
            semaphore.waiters.dom().contains(key) ==> (#[trigger] semaphore.waiters[key]).permits
                <= 1,
    ensures
        semaphore.collected() <= usize::MAX,
{
    crate::permits::lemma_collected_bound(semaphore, usize::MAX as nat);
}

/// Changing neither a waiter nor the number of handed out permits keeps the
/// invariant, if there are not more available permits.
pub proof fn lemma_counts_inv(state: BoundedState, semaphore: SemaphoreView)
    requires
        state.inv(),
        semaphore.inv(),
        semaphore.permits <= state.semaphore.permits,
        semaphore.outstanding == state.semaphore.outstanding,
        semaphore.waiters == state.semaphore.waiters,
        semaphore.closed == state.semaphore.closed,
    ensures
        state.with_semaphore(semaphore).inv(),
{
    let after = state.with_semaphore(semaphore);
    crate::permits::lemma_collected_same(state.semaphore, semaphore, usize::MAX as nat + 1);
    assert forall|key: usize|
        after.semaphore.waiters.dom().contains(key) implies #[trigger] after.sender_inv(key) by {
        assert(state.sender_inv(key));
    }
}

/// Adding permits up to the maximum capacity keeps the invariant.
pub proof fn lemma_grant_inv(state: BoundedState, n: nat)
    requires
        state.inv(),
        state.semaphore.permits + n <= state.max_capacity,
    ensures
        state.with_semaphore(state.semaphore.grant(n)).inv(),
{
    let semaphore = state.semaphore;
    let after = state.with_semaphore(semaphore.grant(n));
    crate::permits::lemma_grant_inv(semaphore, n);
    crate::permits::lemma_grant_waiters(semaphore, n);
    crate::permits::lemma_collected_grant(semaphore, n);
    assert forall|key: usize|
        after.semaphore.waiters.dom().contains(key) implies #[trigger] after.sender_inv(key) by {
        assert(state.sender_inv(key));
        assert(semaphore.waiter_inv(key));
        if semaphore.queue.contains(key) {
            let i = choose|i: int| 0 <= i < semaphore.queue.len() && semaphore.queue[i] == key;
            assert(semaphore.queue[i] == key);
        }
    }
    assert forall|key: usize| after.semaphore.waiters.dom().contains(key) implies (
    #[trigger] after.semaphore.waiters[key]).permits <= 1 by {
        assert(after.sender_inv(key));
        assert(after.semaphore.waiter_inv(key));
    }
    lemma_collected_fits(after.semaphore);
}

/// Resetting the capacity keeps the invariant.
pub proof fn lemma_reset_inv(state: BoundedState)
    requires
        state.inv(),
    ensures
        state.reset().inv(),
{
    lemma_grant_inv(state, (state.max_capacity - state.semaphore.permits) as nat);
}

/// Making the capacity of a received element available keeps the invariant.
pub proof fn lemma_release_inv(state: BoundedState)
    requires
        state.inv(),
    ensures
        state.release().inv(),
{
    if state.semaphore.permits + state.semaphore.outstanding < state.max_capacity {
        lemma_grant_inv(state, 1);
    }
}

/// Giving capacity back keeps the invariant.
pub proof fn lemma_restore_inv(state: BoundedState)
    requires
        state.inv(),
    ensures
        state.restore().inv(),
{
    if state.semaphore.permits < state.max_capacity {
        lemma_grant_inv(state, 1);
    }
}

/// Closing the queue keeps the invariant.
pub proof fn lemma_close_inv(state: BoundedState)
    requires
        state.inv(),
    ensures
        state.close().inv(),
{
    let after = state.close();
    crate::permits::lemma_close_inv(state.semaphore);
    crate::permits::lemma_collected_close(state.semaphore, usize::MAX as nat + 1);
    assert forall|key: usize|
        after.semaphore.waiters.dom().contains(key) implies #[trigger] after.sender_inv(key) by {
        assert(state.sender_inv(key));
    }
}

/// Adding a sender that has not been polled yet keeps the invariant.
pub proof fn lemma_register_inv(state: BoundedState, key: usize)
    requires
        state.inv(),
        key < usize::MAX,
        !state.semaphore.waiters.dom().contains(key),
    ensures
        state.with_semaphore(state.semaphore.register(key, 1)).inv(),
{
    let after = state.with_semaphore(state.semaphore.register(key, 1));
    crate::permits::lemma_register_inv(state.semaphore, key, 1);
    crate::permit_laws::law_accounted_register(state.semaphore, key, 1);
    assert forall|other: usize|
        after.semaphore.waiters.dom().contains(other) implies #[trigger] after.sender_inv(other) by {
        if other != key {
            assert(state.sender_inv(other));
        }
    }
}

/// What a waiting sender has collected is counted as handed out.
pub proof fn lemma_sender_accounted(state: BoundedState, key: usize)
    requires
        state.inv(),
        state.semaphore.waiters.dom().contains(key),
    ensures
        state.semaphore.waiters[key].permits <= state.semaphore.outstanding,
        state.semaphore.waiters[key].permits <= 1,
{
    crate::permit_laws::law_accounted_waiter(state.semaphore, key);
    assert(state.sender_inv(key));
    assert(state.semaphore.waiter_inv(key));
}

/// Removing a waiter of the state `semaphore` keeps the invariant, if it holds
/// of everything but this waiter and `held` more permits are counted as handed
/// out.
proof fn lemma_unregister_inv(
    state: BoundedState,
    semaphore: SemaphoreView,
    key: usize,
    held: nat,
)
    requires
        semaphore.inv(),
        0 < state.max_capacity <= usize::MAX,
        semaphore.permits <= state.max_capacity,
        semaphore.collected() + held == semaphore.outstanding,
        !semaphore.waiters.dom().contains(usize::MAX),
        semaphore.waiters.dom().contains(key),
        forall|other: usize|
            other != key && semaphore.waiters.dom().contains(other)
                ==> #[trigger] state.with_semaphore(semaphore).sender_inv(other),
    ensures
        semaphore.waiters[key].permits + held <= semaphore.outstanding,
        state.with_semaphore(semaphore.unregister(key).forget(held)).inv(),
{
    crate::permits::lemma_collected_part(semaphore, key, usize::MAX as nat + 1);
    crate::permits::lemma_unregister_inv(semaphore, key);
    let gone = semaphore.unregister(key);
    let after = state.with_semaphore(gone.forget(held));
    crate::permits::lemma_collected_insert(semaphore, gone, key, usize::MAX as nat + 1);
    crate::permits::lemma_collected_same(gone, after.semaphore, usize::MAX as nat + 1);
    crate::permits::lemma_counts_inv(gone, after.semaphore);
    assert forall|other: usize|
        after.semaphore.waiters.dom().contains(other) implies #[trigger] after.sender_inv(other) by {
        assert(state.with_semaphore(semaphore).sender_inv(other));
    }
}

/// Dropping a waiting sender keeps the invariant.
pub proof fn lemma_cancel_inv(state: BoundedState, key: usize)
    requires
        state.inv(),
        state.semaphore.waiters.dom().contains(key),
    ensures
        state.with_semaphore(state.semaphore.unregister(key)).inv(),
        state.cancel(key).inv(),
{
    let gone = state.semaphore.unregister(key);
    lemma_sender_accounted(state, key);
    assert forall|other: usize|
        other != key && state.semaphore.waiters.dom().contains(
            other,
        ) implies #[trigger] state.with_semaphore(state.semaphore).sender_inv(other) by {
        assert(state.sender_inv(other));
    }
    lemma_unregister_inv(state, state.semaphore, key, 0);
    assert(gone.forget(0) == gone);
    lemma_restore_inv(state.with_semaphore(gone));
}

/// Polling a waiting sender keeps the invariant. Once the outcome is known, the
/// sender is dropped, and the permit that it hands over is used up.
pub proof fn lemma_poll_inv(state: BoundedState, key: usize, waker: Waker)
    requires
        state.inv(),
        state.semaphore.waiters.dom().contains(key),
    ensures
        ({
            let polled = state.semaphore.poll(key, waker);
            &&& polled.waiters.dom().contains(key)
            &&& polled.waiters[key].permits <= polled.outstanding
            &&& match state.semaphore.poll_outcome(key) {
                Acquisition::Acquired(count) => {
                    &&& count == 1
                    &&& polled.waiters[key].permits == 0
                    &&& polled.unregister(key).outstanding >= count
                    &&& state.with_semaphore(polled.unregister(key).forget(count)).inv()
                },
                Acquisition::Closed => state.with_semaphore(polled).inv(),
                Acquisition::Pending => state.with_semaphore(polled).inv(),
            }
        }),
{
    let semaphore = state.semaphore;
    let polled = semaphore.poll(key, waker);
    let after = state.with_semaphore(polled);
    assert(semaphore.waiter_inv(key));
    assert(state.sender_inv(key));
    if semaphore.waiters[key].state is Inert {
        lemma_room_for_sender(state, key);
    } else {
        lemma_sender_accounted(state, key);
    }
    crate::permits::lemma_poll_inv(semaphore, key, waker);
    crate::permit_laws::law_accounted_poll(semaphore, key, waker);
    crate::permit_laws::law_accounted_waiter(polled, key);
    assert forall|other: usize|
        other != key && semaphore.waiters.dom().contains(
            other,
        ) implies #[trigger] after.sender_inv(other) by {
        assert(state.sender_inv(other));
    }
    match semaphore.poll_outcome(key) {
        Acquisition::Acquired(count) => {
            lemma_unregister_inv(state, polled, key, count);
        },
        _ => {
            assert forall|other: usize|
                after.semaphore.waiters.dom().contains(other) implies #[trigger] after.sender_inv(
                other,
            ) by {
                assert(state.sender_inv(other));
            }
        },
    }
}

/// One more permit can be counted while a sender has not got its permit.
pub proof fn lemma_room_for_sender(state: BoundedState, key: usize)
    requires
        state.inv(),
        state.semaphore.waiters.dom().contains(key),
        state.semaphore.waiters[key].state is Inert,
    ensures
        state.semaphore.outstanding + 1 <= usize::MAX,
{
    let semaphore = state.semaphore;
    let waiter = semaphore.waiters[key];
    let full = semaphore.with_waiter(key, WaiterView { permits: 1, ..waiter });
    assert(semaphore.waiter_inv(key));
    crate::permits::lemma_collected_insert(semaphore, full, key, usize::MAX as nat + 1);
    assert forall|other: usize| full.waiters.dom().contains(other) implies (
    #[trigger] full.waiters[other]).permits <= 1 by {
        if other != key {
            assert(state.sender_inv(other));
            assert(semaphore.waiter_inv(other));
        }
    }
    lemma_collected_fits(full);
}

} // verus!

//! The accounting of permits: what a semaphore stores and how each operation
//! changes it.

use crate::semaphore::TryAcquireError;
use crate::task::Waker;
use crate::waiter::{WaiterState, WaiterView};
use vstd::prelude::*;

verus! {

/// The sum of two permit counts, which saturates at the largest `usize`.
pub open spec fn sat_add(a: nat, b: nat) -> nat {
    if a + b > usize::MAX {
        usize::MAX as nat
    } else {
        a + b
    }
}

/// The difference of two permit counts, which saturates at zero.
pub open spec fn sat_sub(a: nat, b: nat) -> nat {
    if a < b {
        0
    } else {
        (a - b) as nat
    }
}

/// The outcome of polling for permits.
pub enum Acquisition {
    /// The permits have been acquired.
    Acquired(nat),
    /// The semaphore has been closed.
    Closed,
    /// The permits are not available yet.
    Pending,
}

/// What a [`Semaphore`] stores.
pub struct SemaphoreView {
    /// The number of available permits.
    pub permits: nat,
    /// The number of handed out permits.
    pub outstanding: nat,
    /// Whether the semaphore has been closed.
    pub closed: bool,
    /// The keys of the enqueued waiters, from the front to the back.
    pub queue: Seq<usize>,
    /// All waiters by their keys.
    pub waiters: Map<usize, WaiterView>,
    /// The tasks that have been woken and were not taken yet.
    pub wakes: Seq<Waker>,
}

impl SemaphoreView {
    /// Whether the state of a waiter agrees with the queue.
    pub open spec fn waiter_inv(self, key: usize) -> bool {
        let waiter = self.waiters[key];
        &&& waiter.permits <= waiter.wants
        &&& waiter.state is Inert ==> waiter.permits == 0
        &&& waiter.state is Waiting <==> self.queue.contains(key)
        &&& waiter.state is Waiting ==> waiter.permits < waiter.wants && waiter.waker is Some
    }

    /// What holds of every semaphore: waiters wait only while the semaphore is
    /// open and there are no available permits.
    pub open spec fn inv(self) -> bool {
        &&& self.permits <= usize::MAX
        &&& self.outstanding <= usize::MAX
        &&& self.queue.no_duplicates()
        &&& forall|i: int|
            0 <= i < self.queue.len() ==> self.waiters.dom().contains(#[trigger] self.queue[i])
        &&& forall|key: usize|
            self.waiters.dom().contains(key) ==> #[trigger] self.waiter_inv(key)
        &&& self.queue.len() > 0 ==> self.permits == 0 && !self.closed
    }

    /// The number of permits that a waiter is still missing.
    pub open spec fn need(self, key: usize) -> nat {
        (self.waiters[key].wants - self.waiters[key].permits) as nat
    }

    /// The number of permits that the first `k` enqueued waiters are missing.
    pub open spec fn demand(self, k: nat) -> nat
        decreases k,
    {
        if k == 0 {
            0
        } else {
            self.demand((k - 1) as nat) + self.need(self.queue[k - 1])
        }
    }

    /// The largest number up to `k` of first enqueued waiters that `n` permits
    /// are enough for.
    pub open spec fn served_within(self, k: nat, n: nat) -> nat
        decreases k,
    {
        if k == 0 || self.demand(k) <= n {
            k
        } else {
            self.served_within((k - 1) as nat, n)
        }
    }

    /// The number of first enqueued waiters that `n` permits are enough for.
    pub open spec fn served(self, n: nat) -> nat {
        self.served_within(self.queue.len(), n)
    }

    /// The state after the first `k` enqueued waiters got all permits that
    /// they were missing and have been notified.
    pub open spec fn complete(self, k: nat) -> SemaphoreView {
        let keys = self.queue.take(k as int);
        SemaphoreView {
            outstanding: sat_add(self.outstanding, self.demand(k)),
            queue: self.queue.skip(k as int),
            waiters: Map::new(
                |key: usize| self.waiters.dom().contains(key),
                |key: usize|
                    if keys.contains(key) {
                        WaiterView {
                            permits: self.waiters[key].wants,
                            state: WaiterState::Woken,
                            ..self.waiters[key]
                        }
                    } else {
                        self.waiters[key]
                    },
            ),
            wakes: self.wakes + crate::waiter::wakers(self.waiters, keys),
            ..self
        }
    }

    /// The state after adding `n` permits.
    ///
    /// The permits go to the enqueued waiters in the order in which they wait;
    /// the first one that they are not enough for gets what is left. Only
    /// permits that no waiter is missing become available.
    pub open spec fn grant(self, n: nat) -> SemaphoreView {
        let k = self.served(n);
        let rest = (n - self.demand(k)) as nat;
        let state = self.complete(k);
        if k < self.queue.len() {
            let key = self.queue[k as int];
            SemaphoreView {
                outstanding: sat_add(self.outstanding, n),
                waiters: state.waiters.insert(
                    key,
                    WaiterView {
                        permits: self.waiters[key].permits + rest,
                        ..self.waiters[key]
                    },
                ),
                ..state
            }
        } else {
            SemaphoreView { permits: sat_add(self.permits, rest), ..state }
        }
    }

    /// Why an attempt to acquire `n` permits at once is refused.
    pub open spec fn refusal(self, n: nat) -> Option<TryAcquireError> {
        if self.closed {
            Some(TryAcquireError::Closed)
        } else if n > self.permits {
            Some(TryAcquireError::NoPermits)
        } else {
            None
        }
    }

    /// The state after handing out `n` of the available permits.
    pub open spec fn take(self, n: nat) -> SemaphoreView {
        SemaphoreView {
            permits: (self.permits - n) as nat,
            outstanding: sat_add(self.outstanding, n),
            ..self
        }
    }

    /// The state after permanently dropping `n` handed out permits.
    pub open spec fn forget(self, n: nat) -> SemaphoreView {
        SemaphoreView { outstanding: (self.outstanding - n) as nat, ..self }
    }

    /// The state after `n` permits came back.
    pub open spec fn give_back(self, n: nat) -> SemaphoreView {
        SemaphoreView { outstanding: sat_sub(self.outstanding, n), ..self }.grant(n)
    }

    /// The state after removing up to `n` available permits.
    pub open spec fn shrink(self, n: nat) -> SemaphoreView {
        SemaphoreView { permits: sat_sub(self.permits, n), ..self }
    }

    /// The state after closing the semaphore: all enqueued waiters have been
    /// notified.
    pub open spec fn close(self) -> SemaphoreView {
        SemaphoreView {
            closed: true,
            queue: Seq::empty(),
            waiters: crate::waiter::notified(self.waiters, self.queue),
            wakes: self.wakes + crate::waiter::wakers(self.waiters, self.queue),
            ..self
        }
    }

    /// The state after adding a waiter that has not been polled yet.
    pub open spec fn register(self, key: usize, wants: nat) -> SemaphoreView {
        SemaphoreView {
            waiters: self.waiters.insert(
                key,
                WaiterView { wants, permits: 0, state: WaiterState::Inert, waker: None },
            ),
            ..self
        }
    }

    /// The state after replacing a waiter.
    pub open spec fn with_waiter(self, key: usize, waiter: WaiterView) -> SemaphoreView {
        SemaphoreView { waiters: self.waiters.insert(key, waiter), ..self }
    }

    /// The permits that a waiter gets when it is polled for the first time.
    pub open spec fn first_share(self, key: usize) -> nat {
        if self.waiters[key].wants > self.permits {
            self.permits
        } else {
            self.waiters[key].wants
        }
    }

    /// The outcome of polling a waiter.
    pub open spec fn poll_outcome(self, key: usize) -> Acquisition {
        let waiter = self.waiters[key];
        if self.closed {
            Acquisition::Closed
        } else {
            match waiter.state {
                WaiterState::Woken => Acquisition::Acquired(waiter.permits),
                WaiterState::Waiting => Acquisition::Pending,
                WaiterState::Inert => if self.first_share(key) == waiter.wants {
                    Acquisition::Acquired(waiter.wants)
                } else {
                    Acquisition::Pending
                },
            }
        }
    }

    /// The state after polling a waiter from the task `waker`.
    ///
    /// On its first poll a waiter takes the permits that it wants or else all
    /// that are available and waits for the others. A waiter that has its
    /// permits hands them over.
    pub open spec fn poll(self, key: usize, waker: Waker) -> SemaphoreView {
        let waiter = self.waiters[key];
        let spent = WaiterView { permits: 0, state: WaiterState::Woken, ..waiter };
        if self.closed {
            self.with_waiter(key, WaiterView { state: WaiterState::Woken, ..waiter })
        } else {
            match waiter.state {
                WaiterState::Woken => self.with_waiter(key, spent),
                WaiterState::Waiting => self,
                WaiterState::Inert => {
                    let share = self.first_share(key);
                    if share == waiter.wants {
                        self.take(share).with_waiter(key, spent)
                    } else {
                        SemaphoreView {
                            queue: self.queue.push(key),
                            ..self.take(share).with_waiter(
                                key,
                                WaiterView {
                                    permits: share,
                                    state: WaiterState::Waiting,
                                    waker: Some(waker),
                                    ..waiter
                                },
                            )
                        }
                    }
                },
            }
        }
    }

    /// The state after removing a waiter but not yet returning the permits that
    /// it has collected.
    pub open spec fn unregister(self, key: usize) -> SemaphoreView {
        SemaphoreView {
            outstanding: (self.outstanding - self.waiters[key].permits) as nat,
            queue: if self.queue.contains(key) {
                self.queue.remove(self.queue.index_of(key))
            } else {
                self.queue
            },
            waiters: self.waiters.remove(key),
            ..self
        }
    }

    /// The state after dropping a waiter: the permits that it has collected and
    /// not handed over are returned.
    pub open spec fn cancel(self, key: usize) -> SemaphoreView {
        self.unregister(key).grant(self.waiters[key].permits)
    }

    /// The permits that waiters with keys below `bound` have collected.
    pub open spec fn collected_below(self, bound: nat) -> nat
        decreases bound,
    {
        if bound == 0 {
            0
        } else {
            let key = (bound - 1) as usize;
            self.collected_below((bound - 1) as nat) + if self.waiters.dom().contains(key) {
                self.waiters[key].permits
            } else {
                0
            }
        }
    }

    /// The permits that all waiters have collected and not handed over.
    pub open spec fn collected(self) -> nat {
        self.collected_below(usize::MAX as nat + 1)
    }

    /// Whether all permits that waiters have collected are counted as handed
    /// out.
    pub open spec fn accounted(self) -> bool {
        self.collected() <= self.outstanding
    }
}

/// More waiters do not miss fewer permits.
pub proof fn lemma_demand_monotone(state: SemaphoreView, j: nat, k: nat)
    requires
        j <= k,
    ensures
        state.demand(j) <= state.demand(k),
    decreases k,
{
    if j < k {
        lemma_demand_monotone(state, j, (k - 1) as nat);
    }
}

/// The number of served waiters is the one between a sum of needs that `n` is
/// enough for and one that it is not enough for.
pub proof fn lemma_served(state: SemaphoreView, n: nat, k: nat, bound: nat)
    requires
        k <= bound,
        state.demand(k) <= n,
        k < bound ==> state.demand(k + 1) > n,
    ensures
        state.served_within(bound, n) == k,
    decreases bound,
{
    if k < bound {
        lemma_demand_monotone(state, k + 1, bound);
        lemma_served(state, n, k, (bound - 1) as nat);
    }
}

/// What is served needs no more than `n` permits, one more would.
pub proof fn lemma_served_bounds(state: SemaphoreView, n: nat, bound: nat)
    ensures
        state.served_within(bound, n) <= bound,
        state.demand(state.served_within(bound, n)) <= n,
        state.served_within(bound, n) < bound ==> state.demand(state.served_within(bound, n) + 1)
            > n,
    decreases bound,
{
    if bound > 0 && state.demand(bound) > n {
        lemma_served_bounds(state, n, (bound - 1) as nat);
    }
}

/// Completing waiters keeps the invariant.
pub proof fn lemma_complete_inv(state: SemaphoreView, k: nat)
    requires
        state.inv(),
        k <= state.queue.len(),
    ensures
        state.complete(k).inv(),
{
    let after = state.complete(k);
    let keys = state.queue.take(k as int);
    assert forall|i: int| 0 <= i < after.queue.len() implies after.waiters.dom().contains(
        #[trigger] after.queue[i],
    ) by {
        assert(after.queue[i] == state.queue[i + k]);
    }
    assert forall|key: usize| after.waiters.dom().contains(key) implies #[trigger] after.waiter_inv(
        key,
    ) by {
        assert(state.waiter_inv(key));
        if keys.contains(key) {
            let i = choose|i: int| 0 <= i < keys.len() && keys[i] == key;
            assert(state.queue[i] == key);
            assert(!after.queue.contains(key)) by {
                if after.queue.contains(key) {
                    let j = choose|j: int| 0 <= j < after.queue.len() && after.queue[j] == key;
                    assert(state.queue[j + k] == key);
                }
            }
        } else {
            assert(state.queue.contains(key) <==> after.queue.contains(key)) by {
                if state.queue.contains(key) {
                    let i = choose|i: int| 0 <= i < state.queue.len() && state.queue[i] == key;
                    if i < k {
                        assert(keys[i] == key);
                    } else {
                        assert(after.queue[i - k] == key);
                    }
                }
                if after.queue.contains(key) {
                    let j = choose|j: int| 0 <= j < after.queue.len() && after.queue[j] == key;
                    assert(state.queue[j + k] == key);
                }
            }
        }
    }
}

/// Adding permits keeps the invariant.
pub proof fn lemma_grant_inv(state: SemaphoreView, n: nat)
    requires
        state.inv(),
    ensures
        state.grant(n).inv(),
{
    let k = state.served(n);
    lemma_served_bounds(state, n, state.queue.len());
    lemma_complete_inv(state, k);
    let mid = state.complete(k);
    let after = state.grant(n);
    if k < state.queue.len() {
        let key = state.queue[k as int];
        assert(state.waiter_inv(key));
        assert(state.queue.contains(key));
        assert(mid.queue[0] == key);
        assert(mid.queue.contains(key));
        assert forall|other: usize|
            after.waiters.dom().contains(other) implies #[trigger] after.waiter_inv(other) by {
            assert(mid.waiter_inv(other));
        }
    } else {
        assert forall|other: usize|
            after.waiters.dom().contains(other) implies #[trigger] after.waiter_inv(other) by {
            assert(mid.waiter_inv(other));
        }
    }
}

/// Completing the first waiter of those that are left is completing one more.
pub proof fn lemma_complete_step(state: SemaphoreView, k: nat)
    requires
        state.inv(),
        k < state.queue.len(),
    ensures
        ({
            let mid = state.complete(k);
            let key = state.queue[k as int];
            let waiter = state.waiters[key];
            &&& mid.queue[0] == key
            &&& mid.queue.len() > 0
            &&& mid.waiters.dom().contains(key)
            &&& mid.waiters[key] == waiter
            &&& waiter.state is Waiting
            &&& waiter.permits < waiter.wants
            &&& waiter.waker is Some
            &&& state.demand(k + 1) == state.demand(k) + waiter.wants - waiter.permits
            &&& state.complete(k + 1) == SemaphoreView {
                outstanding: sat_add(mid.outstanding, state.need(key)),
                queue: mid.queue.skip(1),
                waiters: mid.waiters.insert(
                    key,
                    WaiterView { permits: waiter.wants, state: WaiterState::Woken, ..waiter },
                ),
                wakes: mid.wakes.push(waiter.waker->0),
                ..mid
            }
        }),
{
    let mid = state.complete(k);
    let after = state.complete(k + 1);
    let key = state.queue[k as int];
    let waiter = state.waiters[key];
    let done = state.queue.take(k as int);
    let more = state.queue.take(k as int + 1);
    assert(state.queue.contains(key));
    assert(state.waiter_inv(key));
    assert(more =~= done.push(key));
    assert(!done.contains(key));
    assert forall|other: usize| more.contains(other) <==> (done.contains(other) || other == key) by {
        if done.contains(other) {
            let i = choose|i: int| 0 <= i < done.len() && done[i] == other;
            assert(more[i] == other);
        }
        assert(more[k as int] == key);
    }
    assert(after.waiters =~= mid.waiters.insert(
        key,
        WaiterView { permits: waiter.wants, state: WaiterState::Woken, ..waiter },
    ));
    assert(after.wakes =~= mid.wakes.push(waiter.waker->0));
    assert(after.queue =~= mid.queue.skip(1));
}

/// Closing the semaphore keeps the invariant.
pub proof fn lemma_close_inv(state: SemaphoreView)
    requires
        state.inv(),
    ensures
        state.close().inv(),
{
    let after = state.close();
    assert forall|key: usize| after.waiters.dom().contains(key) implies #[trigger] after.waiter_inv(
        key,
    ) by {
        assert(state.waiter_inv(key));
    }
}

/// Polling a waiter keeps the invariant.
pub proof fn lemma_poll_inv(state: SemaphoreView, key: usize, waker: Waker)
    requires
        state.inv(),
        state.waiters.dom().contains(key),
    ensures
        state.poll(key, waker).inv(),
        state.poll(key, waker).waiters.dom() == state.waiters.dom(),
{
    let after = state.poll(key, waker);
    assert(state.waiter_inv(key));
    assert(after.waiters.dom() =~= state.waiters.dom());
    assert forall|other: usize| after.waiters.dom().contains(other) implies #[trigger] after.waiter_inv(
        other,
    ) by {
        assert(state.waiter_inv(other));
        if after.queue.len() > state.queue.len() {
            assert(after.queue[state.queue.len() as int] == key);
            if state.queue.contains(other) {
                let i = choose|i: int| 0 <= i < state.queue.len() && state.queue[i] == other;
                assert(after.queue[i] == other);
            }
        }
    }
    if after.queue.len() > state.queue.len() {
        assert(!state.queue.contains(key));
    }
}

/// Removing a waiter keeps the invariant.
pub proof fn lemma_unregister_inv(state: SemaphoreView, key: usize)
    requires
        state.inv(),
        state.waiters.dom().contains(key),
        state.outstanding >= state.waiters[key].permits,
    ensures
        state.unregister(key).inv(),
{
    let after = state.unregister(key);
    assert(state.waiter_inv(key));
    let at = state.queue.index_of(key);
    if state.queue.contains(key) {
        assert(state.queue[at] == key);
        assert forall|i: int| 0 <= i < after.queue.len() implies after.queue[i] != key by {
            assert(after.queue[i] == state.queue[if i < at { i } else { i + 1 }]);
        }
    }
    assert forall|i: int| 0 <= i < after.queue.len() implies after.waiters.dom().contains(
        #[trigger] after.queue[i],
    ) by {
        if state.queue.contains(key) {
            assert(after.queue[i] == state.queue[if i < at { i } else { i + 1 }]);
        }
    }
    assert forall|other: usize| after.waiters.dom().contains(other) implies #[trigger] after.waiter_inv(
        other,
    ) by {
        assert(state.waiter_inv(other));
        if state.queue.contains(key) {
            if state.queue.contains(other) {
                let i = choose|i: int| 0 <= i < state.queue.len() && state.queue[i] == other;
                assert(after.queue[if i < at { i } else { i - 1 }] == other);
            }
            if after.queue.contains(other) {
                let i = choose|i: int| 0 <= i < after.queue.len() && after.queue[i] == other;
                assert(state.queue[if i < at { i } else { i + 1 }] == other);
            }
        }
    }
}

/// Counts other than that of available permits do not matter to the invariant,
/// and fewer available permits keep it.
pub proof fn lemma_counts_inv(state: SemaphoreView, after: SemaphoreView)
    requires
        state.inv(),
        after == (SemaphoreView {
            permits: after.permits,
            outstanding: after.outstanding,
            wakes: after.wakes,
            ..state
        }),
        after.permits <= state.permits,
        after.outstanding <= usize::MAX,
    ensures
        after.inv(),
{
    assert forall|key: usize| after.waiters.dom().contains(key) implies #[trigger] after.waiter_inv(
        key,
    ) by {
        assert(state.waiter_inv(key));
    }
}

/// Adding a waiter that has not been polled keeps the invariant.
pub proof fn lemma_register_inv(state: SemaphoreView, key: usize, wants: nat)
    requires
        state.inv(),
        !state.waiters.dom().contains(key),
    ensures
        state.register(key, wants).inv(),
{
    let after = state.register(key, wants);
    assert forall|other: usize| after.waiters.dom().contains(other) implies #[trigger] after.waiter_inv(
        other,
    ) by {
        if other != key {
            assert(state.waiter_inv(other));
        }
    }
}

/// What adding permits does to each waiter: those at the front of the queue
/// are completed, at most one more gets a part of what it is missing, and all
/// others keep what they have.
pub proof fn lemma_grant_waiters(state: SemaphoreView, n: nat)
    requires
        state.inv(),
    ensures
        ({
            let k = state.served(n);
            let after = state.grant(n);
            &&& k <= state.queue.len()
            &&& state.demand(k) <= n
            &&& k < state.queue.len() ==> state.demand(k + 1) > n
            &&& after.queue == state.queue.skip(k as int)
            &&& after.waiters.dom() == state.waiters.dom()
            &&& forall|i: int|
                0 <= i < k ==> after.waiters[#[trigger] state.queue[i]] == (WaiterView {
                    permits: state.waiters[state.queue[i]].wants,
                    state: WaiterState::Woken,
                    ..state.waiters[state.queue[i]]
                })
            &&& k < state.queue.len() ==> after.waiters[state.queue[k as int]] == (WaiterView {
                permits: (state.waiters[state.queue[k as int]].permits + n - state.demand(
                    k,
                )) as nat,
                ..state.waiters[state.queue[k as int]]
            })
            &&& forall|i: int|
                k < i < state.queue.len() ==> after.waiters[#[trigger] state.queue[i]]
                    == state.waiters[state.queue[i]]
            &&& forall|key: usize|
                state.waiters.dom().contains(key) && !state.queue.contains(key)
                    ==> #[trigger] after.waiters[key] == state.waiters[key]
        }),
{
    let k = state.served(n);
    let after = state.grant(n);
    lemma_served_bounds(state, n, state.queue.len());
    let keys = state.queue.take(k as int);
    assert(after.waiters.dom() =~= state.waiters.dom());
    assert forall|i: int| 0 <= i < k implies after.waiters[#[trigger] state.queue[i]] == (
    WaiterView {
        permits: state.waiters[state.queue[i]].wants,
        state: WaiterState::Woken,
        ..state.waiters[state.queue[i]]
    }) by {
        assert(keys[i] == state.queue[i]);
        assert(keys.contains(state.queue[i]));
    }
    assert forall|i: int| k < i < state.queue.len() implies after.waiters[#[trigger] state.queue[i]]
        == state.waiters[state.queue[i]] by {
        assert(!keys.contains(state.queue[i]));
    }
    assert forall|key: usize|
        state.waiters.dom().contains(key) && !state.queue.contains(
            key,
        ) implies #[trigger] after.waiters[key] == state.waiters[key] by {
        assert(!keys.contains(key)) by {
            if keys.contains(key) {
                let i = choose|i: int| 0 <= i < keys.len() && keys[i] == key;
                assert(state.queue[i] == key);
            }
        }
        if k < state.queue.len() {
            assert(state.queue.contains(state.queue[k as int]));
        }
    }
}

/// Completing no waiter changes nothing.
pub proof fn lemma_complete_nothing(state: SemaphoreView)
    requires
        state.outstanding <= usize::MAX,
    ensures
        state.complete(0) == state,
{
    let after = state.complete(0);
    assert(after.waiters =~= state.waiters);
    assert(after.queue =~= state.queue);
    assert(after.wakes =~= state.wakes);
}

/// The collected permits depend on the waiters only.
pub proof fn lemma_collected_same(state: SemaphoreView, after: SemaphoreView, bound: nat)
    requires
        state.waiters == after.waiters,
    ensures
        state.collected_below(bound) == after.collected_below(bound),
    decreases bound,
{
    if bound > 0 {
        lemma_collected_same(state, after, (bound - 1) as nat);
    }
}

/// Replacing or adding one waiter changes the collected permits by what the
/// waiter has collected.
pub proof fn lemma_collected_insert(state: SemaphoreView, after: SemaphoreView, key: usize, bound: nat)
    requires
        bound <= usize::MAX + 1,
        forall|other: usize|
            other != key ==> state.waiters.dom().contains(other)
                == #[trigger] after.waiters.dom().contains(other),
        forall|other: usize|
            other != key && state.waiters.dom().contains(other) ==> state.waiters[other].permits
                == (#[trigger] after.waiters[other]).permits,
    ensures
        ({
            let before = if key < bound && state.waiters.dom().contains(key) {
                state.waiters[key].permits
            } else {
                0
            };
            let now = if key < bound && after.waiters.dom().contains(key) {
                after.waiters[key].permits
            } else {
                0
            };
            after.collected_below(bound) + before == state.collected_below(bound) + now
        }),
    decreases bound,
{
    if bound > 0 {
        lemma_collected_insert(state, after, key, (bound - 1) as nat);
        let other = (bound - 1) as usize;
        if other != key {
            assert(state.waiters.dom().contains(other) <==> after.waiters.dom().contains(other));
            if state.waiters.dom().contains(other) {
                assert(state.waiters[other].permits == after.waiters[other].permits);
            }
        }
    }
}

/// One waiter has not collected more than all waiters together.
pub proof fn lemma_collected_part(state: SemaphoreView, key: usize, bound: nat)
    requires
        key < bound,
        state.waiters.dom().contains(key),
        bound <= usize::MAX + 1,
    ensures
        state.waiters[key].permits <= state.collected_below(bound),
    decreases bound,
{
    if bound - 1 > key {
        lemma_collected_part(state, key, (bound - 1) as nat);
    }
}

/// Closing the semaphore takes no permits from waiters.
pub proof fn lemma_collected_close(state: SemaphoreView, bound: nat)
    ensures
        state.collected_below(bound) == state.close().collected_below(bound),
    decreases bound,
{
    if bound > 0 {
        lemma_collected_close(state, (bound - 1) as nat);
    }
}

/// Completed waiters have collected what they were missing.
pub proof fn lemma_collected_complete(state: SemaphoreView, k: nat)
    requires
        state.inv(),
        k <= state.queue.len(),
    ensures
        state.complete(k).collected() == state.collected() + state.demand(k),
    decreases k,
{
    if k == 0 {
        lemma_complete_nothing(state);
    } else {
        let before = (k - 1) as nat;
        lemma_collected_complete(state, before);
        lemma_complete_step(state, before);
        let key = state.queue[before as int];
        lemma_collected_insert(
            state.complete(before),
            state.complete(k),
            key,
            usize::MAX as nat + 1,
        );
    }
}

/// Waiters have collected what adding permits has given to them.
pub proof fn lemma_collected_grant(state: SemaphoreView, n: nat)
    requires
        state.inv(),
    ensures
        ({
            let k = state.served(n);
            let given = if k < state.queue.len() {
                n
            } else {
                state.demand(k)
            };
            &&& given <= n
            &&& state.grant(n).collected() == state.collected() + given
            &&& state.grant(n).outstanding == sat_add(state.outstanding, given)
            &&& state.grant(n).permits == sat_add(state.permits, (n - given) as nat)
        }),
{
    lemma_grant_waiters(state, n);
    let k = state.served(n);
    lemma_collected_complete(state, k);
    if k < state.queue.len() {
        let key = state.queue[k as int];
        lemma_complete_step(state, k);
        lemma_collected_insert(state.complete(k), state.grant(n), key, usize::MAX as nat + 1);
    } else {
        lemma_collected_same(state.complete(k), state.grant(n), usize::MAX as nat + 1);
    }
}

/// Waiters that want at most one permit have not collected more permits than
/// there are keys.
pub proof fn lemma_collected_bound(state: SemaphoreView, bound: nat)
    requires
        bound <= usize::MAX + 1,
        forall|key: usize|
            state.waiters.dom().contains(key) ==> (#[trigger] state.waiters[key]).permits <= 1,
    ensures
        state.collected_below(bound) <= bound,
    decreases bound,
{
    if bound > 0 {
        lemma_collected_bound(state, (bound - 1) as nat);
        let key = (bound - 1) as usize;
        if state.waiters.dom().contains(key) {
            assert(state.waiters[key].permits <= 1);
        }
    }
}

} // verus!

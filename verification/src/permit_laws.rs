//! The laws of a semaphore: what holds across its operations.

use crate::permits::{Acquisition, SemaphoreView};
use crate::semaphore::TryAcquireError;
use crate::task::Waker;
use crate::waiter::{WaiterState, WaiterView};
use vstd::prelude::*;

verus! {

/// Without enqueued waiters, added permits become available.
proof fn lemma_grant_to_nobody(state: SemaphoreView, n: nat)
    requires
        state.outstanding <= usize::MAX,
        state.queue.len() == 0,
    ensures
        state.grant(n) == (SemaphoreView {
            permits: crate::permits::sat_add(state.permits, n),
            ..state
        }),
{
    crate::permits::lemma_complete_nothing(state);
}

/// An enqueued waiter is missing permits.
proof fn lemma_first_need(state: SemaphoreView)
    requires
        state.inv(),
        state.queue.len() > 0,
    ensures
        state.demand(1) > 0,
{
    assert(state.queue.contains(state.queue[0]));
    assert(state.waiter_inv(state.queue[0]));
    reveal_with_fuel(SemaphoreView::demand, 2);
}

/// Adding no permits changes nothing.
pub proof fn law_grant_nothing(state: SemaphoreView)
    requires
        state.inv(),
    ensures
        state.grant(0) == state,
{
    crate::permits::lemma_complete_nothing(state);
    if state.queue.len() > 0 {
        lemma_first_need(state);
        crate::permits::lemma_served(state, 0, 0, state.queue.len());
        assert(state.grant(0).waiters =~= state.waiters);
    }
}

/// Added permits are neither lost nor multiplied: together the available and
/// the handed out permits grow by what was added.
pub proof fn law_grant_total(state: SemaphoreView, n: nat)
    requires
        state.inv(),
        state.permits + state.outstanding + n <= usize::MAX,
    ensures
        state.grant(n).permits + state.grant(n).outstanding == state.permits + state.outstanding
            + n,
{
    crate::permits::lemma_served_bounds(state, n, state.queue.len());
}

/// Permits are handed out in the order in which waiters wait: a waiter gets
/// some only after all waiters before it got all that they want and have been
/// notified.
pub proof fn law_grant_in_order(state: SemaphoreView, n: nat, i: int, j: int)
    requires
        state.inv(),
        0 <= i < j < state.queue.len(),
        state.grant(n).waiters[state.queue[j]] != state.waiters[state.queue[j]],
    ensures
        state.grant(n).waiters[state.queue[i]].permits == state.waiters[state.queue[i]].wants,
        state.grant(n).waiters[state.queue[i]].state is Woken,
{
    crate::permits::lemma_grant_waiters(state, n);
    let k = state.served(n);
    assert(j <= k);
    assert(state.grant(n).waiters[state.queue[i]].state is Woken);
}

/// Adding permits keeps the order of the waiters that are still enqueued and
/// moves none of them up but by completing those before them.
pub proof fn law_grant_keeps_order(state: SemaphoreView, n: nat)
    requires
        state.inv(),
    ensures
        state.grant(n).queue == state.queue.skip(state.queue.len() - state.grant(n).queue.len()),
{
    crate::permits::lemma_grant_waiters(state, n);
}

/// No waiter that adding permits completes is left asleep: it has all permits
/// that it wants, polling it hands them over, and its task has been woken.
pub proof fn law_grant_wakes(state: SemaphoreView, n: nat, i: int)
    requires
        state.inv(),
        !state.closed,
        0 <= i < state.queue.len() - state.grant(n).queue.len(),
    ensures
        state.grant(n).poll_outcome(state.queue[i]) == Acquisition::Acquired(
            state.waiters[state.queue[i]].wants,
        ),
        state.grant(n).wakes[state.wakes.len() + i] == state.waiters[state.queue[i]].waker->0,
        state.grant(n).wakes.len() == state.wakes.len() + state.queue.len() - state.grant(
            n,
        ).queue.len(),
{
    crate::permits::lemma_grant_waiters(state, n);
    let k = state.served(n);
    let keys = state.queue.take(k as int);
    assert(keys[i] == state.queue[i]);
    assert(state.grant(n).waiters[state.queue[i]].state is Woken);
}

/// With as many permits as all enqueued waiters are missing, nobody waits any
/// longer.
pub proof fn law_grant_enough(state: SemaphoreView, n: nat)
    requires
        state.inv(),
        state.demand(state.queue.len()) <= n,
    ensures
        state.grant(n).queue.len() == 0,
{
    crate::permits::lemma_grant_waiters(state, n);
    crate::permits::lemma_served(state, n, state.queue.len(), state.queue.len());
}

/// Waiters wait only while the semaphore is open and there are no available
/// permits.
pub proof fn law_waiting_needs_shortage(state: SemaphoreView, key: usize)
    requires
        state.inv(),
        state.waiters.dom().contains(key),
        state.waiters[key].state is Waiting,
    ensures
        state.permits == 0,
        !state.closed,
        state.queue.contains(key),
        state.waiters[key].permits < state.waiters[key].wants,
{
    assert(state.waiter_inv(key));
}

/// What the waiters that are left are missing after adding `a` permits.
proof fn lemma_demand_after_grant(state: SemaphoreView, a: nat, j: nat)
    requires
        state.inv(),
        state.served(a) < state.queue.len(),
        1 <= j <= state.queue.len() - state.served(a),
    ensures
        state.grant(a).demand(j) == state.demand(state.served(a) + j) - a,
    decreases j,
{
    crate::permits::lemma_grant_waiters(state, a);
    let k = state.served(a);
    let mid = state.grant(a);
    let key = state.queue[k + j - 1];
    assert(state.queue.contains(key));
    assert(state.waiter_inv(key));
    assert(mid.queue[j - 1] == key);
    if j == 1 {
        reveal_with_fuel(SemaphoreView::demand, 2);
    } else {
        lemma_demand_after_grant(state, a, (j - 1) as nat);
    }
}

/// Adding permits in two steps is the same as adding all of them at once.
pub proof fn law_grant_twice(state: SemaphoreView, a: nat, b: nat)
    requires
        state.inv(),
    ensures
        state.grant(a).grant(b) == state.grant(a + b),
{
    let len = state.queue.len();
    let k = state.served(a);
    let mid = state.grant(a);
    crate::permits::lemma_grant_waiters(state, a);
    crate::permits::lemma_grant_inv(state, a);
    if k == len {
        crate::permits::lemma_served(state, a + b, len, len);
        lemma_grant_to_nobody(mid, b);
    } else {
        let left = (len - k) as nat;
        assert(mid.queue.len() == left);
        crate::permits::lemma_grant_waiters(mid, b);
        let m = mid.served(b);
        if m > 0 {
            lemma_demand_after_grant(state, a, m);
        }
        if m < left {
            lemma_demand_after_grant(state, a, m + 1);
        }
        crate::permits::lemma_served(state, a + b, k + m, len);
        crate::permits::lemma_grant_waiters(state, a + b);
        let once = state.grant(a + b);
        let twice = mid.grant(b);
        assert(twice.queue =~= once.queue);
        assert forall|i: int| 0 <= i < len implies twice.waiters[#[trigger] state.queue[i]]
            == once.waiters[state.queue[i]] by {
            let key = state.queue[i];
            assert(state.queue.contains(key));
            assert(state.waiter_inv(key));
            if i < k {
                assert(!mid.queue.contains(key)) by {
                    if mid.queue.contains(key) {
                        let j = choose|j: int| 0 <= j < mid.queue.len() && mid.queue[j] == key;
                        assert(state.queue[j + k] == key);
                    }
                }
            } else {
                assert(mid.queue[i - k] == key);
            }
        }
        assert forall|key: usize| state.waiters.dom().contains(key) implies twice.waiters[key]
            == once.waiters[key] by {
            if state.queue.contains(key) {
                let i = choose|i: int| 0 <= i < len && state.queue[i] == key;
                assert(twice.waiters[state.queue[i]] == once.waiters[state.queue[i]]);
            } else {
                assert(!mid.queue.contains(key)) by {
                    if mid.queue.contains(key) {
                        let j = choose|j: int| 0 <= j < mid.queue.len() && mid.queue[j] == key;
                        assert(state.queue[j + k] == key);
                    }
                }
            }
        }
        assert(twice.waiters =~= once.waiters);
        assert(twice.wakes =~= once.wakes) by {
            assert forall|j: int| 0 <= j < m implies mid.waiters[#[trigger] mid.queue[j]].waker
                == state.waiters[state.queue[j + k]].waker by {
                assert(mid.queue[j] == state.queue[j + k]);
                if j > 0 {
                    assert(mid.waiters[state.queue[j + k]] == state.waiters[state.queue[j + k]]);
                }
            }
        }
    }
}

/// Handing permits out and taking them back restores the semaphore.
pub proof fn law_take_and_give_back(state: SemaphoreView, n: nat)
    requires
        state.inv(),
        state.refusal(n) is None,
        state.outstanding + n <= usize::MAX,
    ensures
        state.take(n).give_back(n) == state,
{
    if state.queue.len() > 0 {
        law_grant_nothing(state);
    } else {
        lemma_grant_to_nobody(SemaphoreView { permits: (state.permits - n) as nat, ..state }, n);
    }
}

/// Forgetting handed out permits permanently reduces the number of available
/// permits and nothing else, and returning them restores the semaphore.
pub proof fn law_forget_and_return(state: SemaphoreView, n: nat)
    requires
        state.inv(),
        state.refusal(n) is None,
        state.outstanding + n <= usize::MAX,
    ensures
        state.take(n).forget(n) == state.shrink(n),
        state.take(n).forget(n).grant(n) == state,
{
    if state.queue.len() > 0 {
        law_grant_nothing(state);
    } else {
        lemma_grant_to_nobody(SemaphoreView { permits: (state.permits - n) as nat, ..state }, n);
    }
}

/// Forgetting permits and returning them later is giving them back: permits
/// that are still handed out stay so.
pub proof fn law_return_is_give_back(state: SemaphoreView, n: nat)
    requires
        n <= state.outstanding,
    ensures
        state.forget(n).grant(n) == state.give_back(n),
{
}

/// Taking permits back keeps the sum of the available and the handed out
/// permits.
pub proof fn law_give_back_total(state: SemaphoreView, n: nat)
    requires
        state.inv(),
        n <= state.outstanding,
        state.permits + state.outstanding <= usize::MAX,
    ensures
        state.give_back(n).permits + state.give_back(n).outstanding == state.permits
            + state.outstanding,
{
    let mid = SemaphoreView {
        outstanding: crate::permits::sat_sub(state.outstanding, n),
        ..state
    };
    crate::permits::lemma_counts_inv(state, mid);
    law_grant_total(mid, n);
}

/// Polling a waiter keeps the sum of the available and the handed out permits.
pub proof fn law_poll_total(state: SemaphoreView, key: usize, waker: Waker)
    requires
        state.inv(),
        state.waiters.dom().contains(key),
        state.waiters[key].state is Inert ==> state.outstanding + state.first_share(key)
            <= usize::MAX,
    ensures
        state.poll(key, waker).permits + state.poll(key, waker).outstanding == state.permits
            + state.outstanding,
{
}

/// Dropping a waiter keeps the sum of the available and the handed out permits.
pub proof fn law_cancel_total(state: SemaphoreView, key: usize)
    requires
        state.inv(),
        state.waiters.dom().contains(key),
        state.waiters[key].permits <= state.outstanding,
        state.permits + state.outstanding <= usize::MAX,
    ensures
        state.cancel(key).permits + state.cancel(key).outstanding == state.permits
            + state.outstanding,
{
    crate::permits::lemma_unregister_inv(state, key);
    law_grant_total(state.unregister(key), state.waiters[key].permits);
}

/// Dropping a waiter that was never polled leaves the semaphore as it was
/// before the waiter was added.
pub proof fn law_register_and_cancel(state: SemaphoreView, key: usize, wants: nat)
    requires
        state.inv(),
        !state.waiters.dom().contains(key),
    ensures
        state.register(key, wants).cancel(key) == state,
{
    let mid = state.register(key, wants);
    crate::permits::lemma_register_inv(state, key, wants);
    assert(mid.waiter_inv(key));
    assert(mid.unregister(key).waiters =~= state.waiters);
    assert(mid.unregister(key) == state);
    law_grant_nothing(state);
}

/// Dropping a waiter that has to wait leaves no trace of its having been
/// polled: the permits that it has already collected are available again.
pub proof fn law_poll_and_cancel(state: SemaphoreView, key: usize, waker: Waker)
    requires
        state.inv(),
        state.waiters.dom().contains(key),
        state.waiters[key].state is Inert,
        state.poll_outcome(key) is Pending,
        state.permits + state.outstanding <= usize::MAX,
    ensures
        state.poll(key, waker).cancel(key) == state.cancel(key),
{
    assert(state.waiter_inv(key));
    crate::permits::lemma_unregister_inv(state, key);
    crate::permits::lemma_poll_inv(state, key, waker);
    let polled = state.poll(key, waker);
    let share = state.permits;
    assert(polled.queue.last() == key);
    assert(polled.queue.contains(key));
    assert(polled.queue.index_of(key) == state.queue.len());
    assert(polled.unregister(key).queue =~= state.queue);
    assert(polled.unregister(key).waiters =~= state.unregister(key).waiters);
    law_grant_nothing(state.unregister(key));
    if state.queue.len() > 0 {
        assert(polled.unregister(key) == state.unregister(key));
    } else {
        lemma_grant_to_nobody(polled.unregister(key), share);
    }
}

/// Acquiring permits at once and giving them back leaves the semaphore as if
/// the waiter had been dropped instead.
pub proof fn law_acquire_and_release(state: SemaphoreView, key: usize, waker: Waker)
    requires
        state.inv(),
        state.waiters.dom().contains(key),
        state.waiters[key].state is Inert,
        state.poll_outcome(key) is Acquired,
        state.permits + state.outstanding <= usize::MAX,
    ensures
        state.poll(key, waker).cancel(key).give_back(state.waiters[key].wants) == state.cancel(key),
{
    assert(state.waiter_inv(key));
    let wants = state.waiters[key].wants;
    let polled = state.poll(key, waker);
    crate::permits::lemma_poll_inv(state, key, waker);
    crate::permits::lemma_unregister_inv(state, key);
    crate::permits::lemma_unregister_inv(polled, key);
    law_grant_nothing(polled.unregister(key));
    law_grant_nothing(state.unregister(key));
    assert(polled.cancel(key) == polled.unregister(key));
    assert(polled.unregister(key).waiters =~= state.unregister(key).waiters);
    assert(polled.unregister(key) == state.unregister(key).take(wants));
    law_take_and_give_back(state.unregister(key), wants);
}

/// A waiter that has to wait keeps its place when it is polled again.
pub proof fn law_poll_again(state: SemaphoreView, key: usize, first: Waker, second: Waker)
    requires
        state.inv(),
        state.waiters.dom().contains(key),
        state.poll_outcome(key) is Pending,
    ensures
        state.poll(key, first).poll_outcome(key) is Pending,
        state.poll(key, first).poll(key, second) == state.poll(key, first),
{
}

/// Once a waiter has handed its permits over, polling it again hands over no
/// more and changes nothing.
pub proof fn law_poll_after_completion(
    state: SemaphoreView,
    key: usize,
    first: Waker,
    second: Waker,
)
    requires
        state.inv(),
        state.waiters.dom().contains(key),
        state.poll_outcome(key) is Acquired,
    ensures
        state.poll(key, first).poll_outcome(key) == Acquisition::Acquired(0),
        state.poll(key, first).poll(key, second) == state.poll(key, first),
{
    let polled = state.poll(key, first);
    assert(polled.poll(key, second).waiters =~= polled.waiters);
}

/// A waiter acquires exactly as many permits as it wants.
pub proof fn law_acquire_all_or_nothing(state: SemaphoreView, key: usize)
    requires
        state.inv(),
        state.waiters.dom().contains(key),
        state.waiters[key].state is Inert,
        !state.closed,
    ensures
        state.poll_outcome(key) == (if state.waiters[key].wants <= state.permits {
            Acquisition::Acquired(state.waiters[key].wants)
        } else {
            Acquisition::Pending
        }),
{
}

/// Closing the semaphore notifies all waiters, and no more permits are handed
/// out.
pub proof fn law_close(state: SemaphoreView, key: usize, n: nat)
    requires
        state.inv(),
        state.waiters.dom().contains(key),
    ensures
        state.close().closed,
        state.close().queue.len() == 0,
        state.close().refusal(n) == Some(TryAcquireError::Closed),
        state.close().poll_outcome(key) is Closed,
        !(state.close().waiters[key].state is Waiting),
        state.waiters[key].state is Waiting ==> state.close().wakes.skip(
            state.wakes.len() as int,
        ).contains(state.waiters[key].waker->0),
{
    assert(state.waiter_inv(key));
    if state.waiters[key].state is Waiting {
        let i = choose|i: int| 0 <= i < state.queue.len() && state.queue[i] == key;
        let woken = state.close().wakes.skip(state.wakes.len() as int);
        assert(woken[i] == state.waiters[key].waker->0);
    }
}

/// A closed semaphore stays closed.
pub proof fn law_closed_forever(
    state: SemaphoreView,
    key: usize,
    wants: nat,
    n: nat,
    waker: Waker,
)
    requires
        state.closed,
    ensures
        state.close().closed,
        state.grant(n).closed,
        state.take(n).closed,
        state.forget(n).closed,
        state.give_back(n).closed,
        state.shrink(n).closed,
        state.register(key, wants).closed,
        state.poll(key, waker).closed,
        state.cancel(key).closed,
{
}

/// Dropping a waiter after the semaphore has been closed makes the permits
/// that it had collected available.
pub proof fn law_cancel_after_close(state: SemaphoreView, key: usize, waker: Waker)
    requires
        state.inv(),
        state.closed,
        state.waiters.dom().contains(key),
        state.waiters[key].permits <= state.outstanding,
        state.permits + state.outstanding <= usize::MAX,
    ensures
        state.poll(key, waker).cancel(key).permits == state.permits + state.waiters[key].permits,
        state.poll(key, waker).cancel(key).outstanding == state.outstanding
            - state.waiters[key].permits,
{
    assert(state.waiter_inv(key));
    let polled = state.poll(key, waker);
    assert(polled.queue.len() == 0);
    lemma_grant_to_nobody(polled.unregister(key), state.waiters[key].permits);
}

/// If all collected permits are accounted for, so are those of each waiter.
pub proof fn law_accounted_waiter(state: SemaphoreView, key: usize)
    requires
        state.accounted(),
        state.waiters.dom().contains(key),
    ensures
        state.waiters[key].permits <= state.outstanding,
{
    crate::permits::lemma_collected_part(state, key, usize::MAX as nat + 1);
}

/// Adding permits keeps all collected permits accounted for.
pub proof fn law_accounted_grant(state: SemaphoreView, n: nat)
    requires
        state.inv(),
        state.accounted(),
        state.outstanding + n <= usize::MAX,
    ensures
        state.grant(n).accounted(),
        state.grant(n).outstanding - state.grant(n).collected() == state.outstanding
            - state.collected(),
{
    crate::permits::lemma_collected_grant(state, n);
}

/// Adding a waiter keeps all collected permits accounted for.
pub proof fn law_accounted_register(state: SemaphoreView, key: usize, wants: nat)
    requires
        state.accounted(),
        !state.waiters.dom().contains(key),
    ensures
        state.register(key, wants).accounted(),
        state.register(key, wants).collected() == state.collected(),
{
    crate::permits::lemma_collected_insert(
        state,
        state.register(key, wants),
        key,
        usize::MAX as nat + 1,
    );
}

/// Polling a waiter keeps all collected permits accounted for, and those that
/// it hands over are counted as handed out.
pub proof fn law_accounted_poll(state: SemaphoreView, key: usize, waker: Waker)
    requires
        state.inv(),
        state.accounted(),
        state.waiters.dom().contains(key),
        state.waiters[key].state is Inert ==> state.outstanding + state.first_share(key)
            <= usize::MAX,
    ensures
        state.poll(key, waker).accounted(),
        state.poll(key, waker).outstanding - state.poll(key, waker).collected()
            == state.outstanding - state.collected() + match state.poll_outcome(key) {
            Acquisition::Acquired(count) => count,
            _ => 0,
        },
{
    assert(state.waiter_inv(key));
    let after = state.poll(key, waker);
    assert(after.waiters.dom() =~= state.waiters.dom());
    crate::permits::lemma_collected_insert(state, after, key, usize::MAX as nat + 1);
    crate::permits::lemma_collected_part(state, key, usize::MAX as nat + 1);
}

/// Dropping a waiter keeps all collected permits accounted for.
pub proof fn law_accounted_cancel(state: SemaphoreView, key: usize)
    requires
        state.inv(),
        state.accounted(),
        state.waiters.dom().contains(key),
    ensures
        state.cancel(key).accounted(),
        state.cancel(key).outstanding - state.cancel(key).collected() == state.outstanding
            - state.collected(),
{
    law_accounted_waiter(state, key);
    crate::permits::lemma_unregister_inv(state, key);
    crate::permits::lemma_collected_insert(
        state,
        state.unregister(key),
        key,
        usize::MAX as nat + 1,
    );
    law_accounted_grant(state.unregister(key), state.waiters[key].permits);
}

/// Handing permits out, forgetting them and taking them back keeps all
/// collected permits accounted for, as long as no more permits come back than
/// were handed out.
pub proof fn law_accounted_permits(state: SemaphoreView, n: nat)
    requires
        state.inv(),
        state.accounted(),
    ensures
        n <= state.permits && state.outstanding + n <= usize::MAX ==> state.take(n).accounted()
            && state.take(n).collected() + n <= state.take(n).outstanding,
        state.collected() + n <= state.outstanding ==> state.forget(n).accounted()
            && state.give_back(n).accounted(),
        state.shrink(n).accounted(),
        state.close().accounted(),
        state.close().collected() == state.collected(),
{
    let bound = usize::MAX as nat + 1;
    crate::permits::lemma_collected_same(state, state.take(n), bound);
    crate::permits::lemma_collected_same(state, state.forget(n), bound);
    crate::permits::lemma_collected_same(state, state.shrink(n), bound);
    crate::permits::lemma_collected_close(state, bound);
    if state.collected() + n <= state.outstanding {
        let mid = SemaphoreView {
            outstanding: crate::permits::sat_sub(state.outstanding, n),
            ..state
        };
        crate::permits::lemma_collected_same(state, mid, bound);
        crate::permits::lemma_counts_inv(state, mid);
        law_accounted_grant(mid, n);
    }
}

} // verus!

//! What each operation of a semaphore does to what the semaphore stores.

use crate::permits::{Acquisition, SemaphoreView};
use crate::semaphore::TryAcquireError;
use crate::task::Waker;
use crate::waiter::{WaiterState, WaiterView};
use vstd::prelude::*;

verus! {

/// Counts are exact as long as they fit: a sum stops at the largest `usize`, a
/// difference at zero.
pub proof fn law_saturation(a: nat, b: nat)
    ensures
        a + b <= usize::MAX ==> crate::permits::sat_add(a, b) == a + b,
        a + b > usize::MAX ==> crate::permits::sat_add(a, b) == usize::MAX,
        b <= a ==> crate::permits::sat_sub(a, b) + b == a,
        b > a ==> crate::permits::sat_sub(a, b) == 0,
{
}

/// An attempt to acquire permits at once is refused exactly if the semaphore is
/// closed or has fewer permits available, and the error says which.
pub proof fn law_refusal(state: SemaphoreView, n: nat)
    ensures
        state.refusal(n) is None <==> !state.closed && n <= state.permits,
        state.closed ==> state.refusal(n) == Some(TryAcquireError::Closed),
        !state.closed && n > state.permits ==> state.refusal(n) == Some(TryAcquireError::NoPermits),
{
}

/// What is refused does not depend on handed out permits or on waiters, and
/// whoever may have many permits may have fewer.
pub proof fn law_refusal_is_monotone(state: SemaphoreView, other: SemaphoreView, m: nat, n: nat)
    requires
        state.closed == other.closed,
        state.permits <= other.permits,
        m <= n,
        state.refusal(n) is None,
    ensures
        other.refusal(m) is None,
{
}

/// Handing permits out moves them from the available to the handed out ones and
/// touches nothing else.
pub proof fn law_take(state: SemaphoreView, n: nat)
    requires
        n <= state.permits,
    ensures
        ({
            let after = state.take(n);
            &&& after.permits + n == state.permits
            &&& state.outstanding + n <= usize::MAX ==> after.outstanding == state.outstanding + n
            &&& state.outstanding + n > usize::MAX ==> after.outstanding == usize::MAX
            &&& after.closed == state.closed
            &&& after.queue == state.queue
            &&& after.waiters == state.waiters
            &&& after.wakes == state.wakes
        }),
{
}

/// All available permits can be handed out, one request after the other, in
/// whatever portions.
pub proof fn law_take_in_portions(state: SemaphoreView, m: nat, n: nat)
    requires
        state.outstanding + m + n <= usize::MAX,
        m + n <= state.permits,
        !state.closed,
    ensures
        state.refusal(m) is None,
        state.take(m).refusal(n) is None,
        state.take(m).take(n) == state.take(m + n),
        state.take(m).take(n).refusal((state.permits - m - n + 1) as nat)
            == Some(TryAcquireError::NoPermits),
{
}

/// Forgetting handed out permits reduces their number and touches nothing else.
pub proof fn law_forget(state: SemaphoreView, n: nat)
    requires
        n <= state.outstanding,
    ensures
        ({
            let after = state.forget(n);
            &&& after.outstanding + n == state.outstanding
            &&& after.permits == state.permits
            &&& after.closed == state.closed
            &&& after.queue == state.queue
            &&& after.waiters == state.waiters
            &&& after.wakes == state.wakes
        }),
{
}

/// Removing permits reduces the available ones, at most to zero, and touches
/// nothing else.
pub proof fn law_shrink(state: SemaphoreView, n: nat)
    ensures
        ({
            let after = state.shrink(n);
            &&& n <= state.permits ==> after.permits + n == state.permits
            &&& n > state.permits ==> after.permits == 0
            &&& after.outstanding == state.outstanding
            &&& after.closed == state.closed
            &&& after.queue == state.queue
            &&& after.waiters == state.waiters
            &&& after.wakes == state.wakes
        }),
{
}

/// Without enqueued waiters all added permits become available, and nothing
/// else changes.
pub proof fn law_grant_to_nobody(state: SemaphoreView, n: nat)
    requires
        state.inv(),
        state.queue.len() == 0,
    ensures
        ({
            let after = state.grant(n);
            &&& state.permits + n <= usize::MAX ==> after.permits == state.permits + n
            &&& state.permits + n > usize::MAX ==> after.permits == usize::MAX
            &&& after.outstanding == state.outstanding
            &&& after.closed == state.closed
            &&& after.queue == state.queue
            &&& after.waiters == state.waiters
            &&& after.wakes == state.wakes
        }),
{
    crate::permits::lemma_served(state, n, 0, 0);
    crate::permits::lemma_complete_nothing(state);
}

/// Fewer permits than the first waiter is missing all go to that waiter, which
/// goes on waiting; nothing else changes.
pub proof fn law_grant_too_few(state: SemaphoreView, n: nat)
    requires
        state.inv(),
        state.queue.len() > 0,
        state.waiters[state.queue[0]].permits + n < state.waiters[state.queue[0]].wants,
    ensures
        ({
            let after = state.grant(n);
            let first = state.queue[0];
            &&& after.waiters == state.waiters.insert(
                first,
                WaiterView {
                    permits: state.waiters[first].permits + n,
                    ..state.waiters[first]
                },
            )
            &&& state.outstanding + n <= usize::MAX ==> after.outstanding == state.outstanding + n
            &&& state.outstanding + n > usize::MAX ==> after.outstanding == usize::MAX
            &&& after.permits == state.permits
            &&& after.closed == state.closed
            &&& after.queue == state.queue
            &&& after.wakes == state.wakes
        }),
{
    let first = state.queue[0];
    assert(state.demand(1) == state.need(first)) by {
        reveal_with_fuel(SemaphoreView::demand, 2);
    }
    crate::permits::lemma_served(state, n, 0, state.queue.len());
    crate::permits::lemma_complete_nothing(state);
}

/// With at least as many permits as the first waiter is missing, that waiter is
/// completed, woken and dequeued, and what is left is added to the others.
pub proof fn law_grant_first(state: SemaphoreView, n: nat)
    requires
        state.inv(),
        state.queue.len() > 0,
        state.waiters[state.queue[0]].permits + n >= state.waiters[state.queue[0]].wants,
    ensures
        ({
            let first = state.queue[0];
            let waiter = state.waiters[first];
            let missing = (waiter.wants - waiter.permits) as nat;
            let served = SemaphoreView {
                outstanding: if state.outstanding + missing <= usize::MAX {
                    state.outstanding + missing
                } else {
                    usize::MAX as nat
                },
                queue: state.queue.skip(1),
                waiters: state.waiters.insert(
                    first,
                    WaiterView { permits: waiter.wants, state: WaiterState::Woken, ..waiter },
                ),
                wakes: state.wakes.push(waiter.waker->0),
                ..state
            };
            &&& missing > 0
            &&& waiter.waker is Some
            &&& state.grant(n) == served.grant((n - missing) as nat)
        }),
{
    let first = state.queue[0];
    let waiter = state.waiters[first];
    assert(state.queue.contains(first));
    assert(state.waiter_inv(first));
    let missing = state.need(first);
    assert(state.demand(1) == missing) by {
        reveal_with_fuel(SemaphoreView::demand, 2);
    }
    if state.queue.len() > 1 {
        let second = state.queue[1];
        assert(state.queue.contains(second));
        assert(state.waiter_inv(second));
        assert(state.demand(2) > missing) by {
            reveal_with_fuel(SemaphoreView::demand, 3);
        }
    }
    crate::permits::lemma_served(state, missing, 1, state.queue.len());
    crate::permits::lemma_complete_nothing(state);
    crate::permits::lemma_complete_step(state, 0);
    let served = state.complete(1);
    if state.queue.len() > 1 {
        assert(state.queue[1] != first);
        assert(state.grant(missing).waiters =~= served.waiters) by {
            assert(!state.queue.take(1).contains(state.queue[1]));
        }
    }
    assert(state.grant(missing) == served);
    crate::permit_laws::law_grant_twice(state, missing, (n - missing) as nat);
}

/// Giving permits back first takes them from the handed out ones and then adds
/// them like new ones.
pub proof fn law_give_back(state: SemaphoreView, n: nat)
    ensures
        n <= state.outstanding ==> state.give_back(n) == (SemaphoreView {
            outstanding: (state.outstanding - n) as nat,
            ..state
        }).grant(n),
        n > state.outstanding ==> state.give_back(n) == (SemaphoreView {
            outstanding: 0,
            ..state
        }).grant(n),
{
}

/// Closing the semaphore empties the queue, wakes the enqueued waiters in their
/// order and marks them as woken; permits stay where they are.
pub proof fn law_close_effect(state: SemaphoreView)
    ensures
        ({
            let after = state.close();
            &&& after.closed
            &&& after.permits == state.permits
            &&& after.outstanding == state.outstanding
            &&& after.queue == Seq::<usize>::empty()
            &&& after.wakes.len() == state.wakes.len() + state.queue.len()
            &&& forall|i: int|
                0 <= i < state.wakes.len() ==> after.wakes[i] == #[trigger] state.wakes[i]
            &&& forall|i: int|
                0 <= i < state.queue.len() ==> after.wakes[state.wakes.len() + i]
                    == state.waiters[#[trigger] state.queue[i]].waker->0
            &&& after.waiters.dom() == state.waiters.dom()
            &&& forall|key: usize| #[trigger]
                state.waiters.dom().contains(key) ==> {
                    &&& after.waiters[key].wants == state.waiters[key].wants
                    &&& after.waiters[key].permits == state.waiters[key].permits
                    &&& after.waiters[key].waker == state.waiters[key].waker
                    &&& after.waiters[key].state == (if state.queue.contains(key) {
                        WaiterState::Woken
                    } else {
                        state.waiters[key].state
                    })
                }
        }),
{
    let after = state.close();
    assert(after.waiters.dom() =~= state.waiters.dom());
    assert forall|i: int| 0 <= i < state.queue.len() implies after.wakes[state.wakes.len() + i]
        == state.waiters[#[trigger] state.queue[i]].waker->0 by {
        assert(crate::waiter::wakers(state.waiters, state.queue)[i]
            == state.waiters[state.queue[i]].waker->0);
    }
}

/// An acquisition asks for exactly the permits that it was made for, and making
/// it touches neither permits nor other waiters.
pub proof fn law_register(state: SemaphoreView, key: usize, n: nat)
    ensures
        ({
            let after = state.register(key, n);
            &&& after.waiters.dom() == state.waiters.dom().insert(key)
            &&& after.waiters[key].wants == n
            &&& after.waiters[key].permits == 0
            &&& after.waiters[key].state is Inert
            &&& after.waiters[key].waker is None
            &&& forall|other: usize|
                other != key && state.waiters.dom().contains(other)
                    ==> #[trigger] after.waiters[other] == state.waiters[other]
            &&& after.permits == state.permits
            &&& after.outstanding == state.outstanding
            &&& after.closed == state.closed
            &&& after.queue == state.queue
            &&& after.wakes == state.wakes
        }),
{
    assert(state.register(key, n).waiters.dom() =~= state.waiters.dom().insert(key));
}

/// An acquisition of `n` permits gets all `n` at once, if they are available,
/// and otherwise waits.
pub proof fn law_acquire_many(state: SemaphoreView, key: usize, n: nat, waker: Waker)
    requires
        !state.closed,
    ensures
        n <= state.permits ==> {
            &&& state.register(key, n).poll_outcome(key) == Acquisition::Acquired(n)
            &&& state.register(key, n).poll(key, waker).permits + n == state.permits
        },
        n > state.permits ==> {
            &&& state.register(key, n).poll_outcome(key) is Pending
            &&& state.register(key, n).poll(key, waker).queue == state.queue.push(key)
            &&& state.register(key, n).poll(key, waker).waiters[key].wants == n
        },
{
}

/// Polling a waiter touches no other waiter, wakes nobody and neither opens nor
/// closes the semaphore.
pub proof fn law_poll_touches_one(
    state: SemaphoreView,
    key: usize,
    other: usize,
    waker: Waker,
)
    requires
        state.waiters.dom().contains(key),
        other != key,
    ensures
        ({
            let after = state.poll(key, waker);
            &&& after.waiters.dom() == state.waiters.dom()
            &&& state.waiters.dom().contains(other) ==> after.waiters[other]
                == state.waiters[other]
            &&& after.waiters[key].wants == state.waiters[key].wants
            &&& after.wakes == state.wakes
            &&& after.closed == state.closed
        }),
{
    assert(state.poll(key, waker).waiters.dom() =~= state.waiters.dom());
}

/// Polling a waiter of a closed semaphore fails, and the waiter keeps what it
/// has collected.
pub proof fn law_poll_closed(state: SemaphoreView, key: usize, waker: Waker)
    requires
        state.waiters.dom().contains(key),
        state.closed,
    ensures
        ({
            let after = state.poll(key, waker);
            &&& state.poll_outcome(key) is Closed
            &&& after.waiters[key].permits == state.waiters[key].permits
            &&& after.waiters[key].waker == state.waiters[key].waker
            &&& after.waiters[key].state is Woken
            &&& after.permits == state.permits
            &&& after.outstanding == state.outstanding
            &&& after.queue == state.queue
        }),
{
}

/// Polling a waiter that has been woken hands all of its permits over, which
/// stay handed out.
pub proof fn law_poll_woken(state: SemaphoreView, key: usize, waker: Waker)
    requires
        state.waiters.dom().contains(key),
        !state.closed,
        state.waiters[key].state is Woken,
    ensures
        ({
            let after = state.poll(key, waker);
            &&& state.poll_outcome(key) == Acquisition::Acquired(state.waiters[key].permits)
            &&& after.waiters[key].permits == 0
            &&& after.waiters[key].waker == state.waiters[key].waker
            &&& after.waiters[key].state is Woken
            &&& after.permits == state.permits
            &&& after.outstanding == state.outstanding
            &&& after.queue == state.queue
        }),
{
}

/// Polling a waiter that waits changes nothing.
pub proof fn law_poll_waiting(state: SemaphoreView, key: usize, waker: Waker)
    requires
        state.waiters.dom().contains(key),
        !state.closed,
        state.waiters[key].state is Waiting,
    ensures
        state.poll_outcome(key) is Pending,
        state.poll(key, waker) == state,
{
}

/// A waiter that is polled for the first time takes its permits, if there are
/// enough.
pub proof fn law_poll_takes(state: SemaphoreView, key: usize, waker: Waker)
    requires
        state.waiters.dom().contains(key),
        !state.closed,
        state.waiters[key].state is Inert,
        state.waiters[key].wants <= state.permits,
    ensures
        ({
            let wants = state.waiters[key].wants;
            let after = state.poll(key, waker);
            &&& state.poll_outcome(key) == Acquisition::Acquired(wants)
            &&& after.permits + wants == state.permits
            &&& state.outstanding + wants <= usize::MAX ==> after.outstanding == state.outstanding
                + wants
            &&& state.outstanding + wants > usize::MAX ==> after.outstanding == usize::MAX
            &&& after.waiters[key].permits == 0
            &&& after.waiters[key].state is Woken
            &&& after.waiters[key].waker == state.waiters[key].waker
            &&& after.queue == state.queue
        }),
{
}

/// A waiter that is polled for the first time and lacks permits collects all
/// that are available and goes behind all waiters that already wait.
pub proof fn law_poll_waits(state: SemaphoreView, key: usize, waker: Waker)
    requires
        state.waiters.dom().contains(key),
        !state.closed,
        state.waiters[key].state is Inert,
        state.waiters[key].wants > state.permits,
    ensures
        ({
            let after = state.poll(key, waker);
            &&& state.poll_outcome(key) is Pending
            &&& after.permits == 0
            &&& state.outstanding + state.permits <= usize::MAX ==> after.outstanding
                == state.outstanding + state.permits
            &&& state.outstanding + state.permits > usize::MAX ==> after.outstanding == usize::MAX
            &&& after.waiters[key].permits == state.permits
            &&& after.waiters[key].state is Waiting
            &&& after.waiters[key].waker == Some(waker)
            &&& after.queue == state.queue.push(key)
        }),
{
}

/// Of two waiters that start to wait one after the other, the second gets no
/// permit before the first has got all that it wants and has been woken, however
/// many permits are added.
pub proof fn law_wait_in_order(
    state: SemaphoreView,
    first: usize,
    second: usize,
    first_waker: Waker,
    second_waker: Waker,
    n: nat,
)
    requires
        state.inv(),
        state.waiters.dom().contains(first),
        state.waiters.dom().contains(second),
        first != second,
        state.waiters[first].state is Inert,
        state.waiters[second].state is Inert,
        state.poll_outcome(first) is Pending,
        state.poll(first, first_waker).poll_outcome(second) is Pending,
    ensures
        ({
            let waiting = state.poll(first, first_waker).poll(second, second_waker);
            let after = waiting.grant(n);
            after.waiters[second] != waiting.waiters[second] ==> {
                &&& after.waiters[first].permits == state.waiters[first].wants
                &&& after.waiters[first].state is Woken
                &&& after.wakes.contains(first_waker)
            }
        }),
{
    let one = state.poll(first, first_waker);
    let two = one.poll(second, second_waker);
    crate::permits::lemma_poll_inv(state, first, first_waker);
    crate::permits::lemma_poll_inv(one, second, second_waker);
    let i = state.queue.len() as int;
    assert(two.queue[i] == first);
    assert(two.queue[i + 1] == second);
    if two.grant(n).waiters[second] != two.waiters[second] {
        crate::permit_laws::law_grant_in_order(two, n, i, i + 1);
        crate::permits::lemma_grant_waiters(two, n);
        assert(i < two.served(n));
        crate::permit_laws::law_grant_wakes(two, n, i);
        let woken = two.grant(n).wakes;
        assert(woken[two.wakes.len() + i] == first_waker);
    }
}

/// Removing a waiter takes it out of the queue, keeps the order of the others
/// and no longer counts its permits as handed out.
pub proof fn law_unregister(state: SemaphoreView, key: usize)
    requires
        state.inv(),
        state.waiters.dom().contains(key),
        state.waiters[key].permits <= state.outstanding,
    ensures
        ({
            let after = state.unregister(key);
            &&& after.outstanding + state.waiters[key].permits == state.outstanding
            &&& after.waiters == state.waiters.remove(key)
            &&& !state.queue.contains(key) ==> after.queue == state.queue
            &&& forall|i: int|
                0 <= i < state.queue.len() && #[trigger] state.queue[i] == key ==> after.queue
                    == state.queue.take(i) + state.queue.skip(i + 1)
            &&& after.permits == state.permits
            &&& after.closed == state.closed
            &&& after.wakes == state.wakes
        }),
{
    let after = state.unregister(key);
    assert forall|i: int| 0 <= i < state.queue.len() && #[trigger] state.queue[i] == key implies after.queue
        == state.queue.take(i) + state.queue.skip(i + 1) by {
        assert(state.queue.contains(key));
        assert(state.queue.index_of(key) == i);
        assert(after.queue =~= state.queue.take(i) + state.queue.skip(i + 1));
    }
}

/// Dropping a waiter removes it and adds the permits that it has collected and
/// not handed over like new ones.
pub proof fn law_cancel(state: SemaphoreView, key: usize)
    ensures
        state.cancel(key) == state.unregister(key).grant(state.waiters[key].permits),
{
}

/// What holds of every waiter: it has not collected more than it wants, it is in
/// the queue exactly while it waits, and then it misses permits and can be
/// woken.
pub proof fn law_waiter(state: SemaphoreView, key: usize)
    requires
        state.inv(),
        state.waiters.dom().contains(key),
    ensures
        state.waiters[key].permits <= state.waiters[key].wants,
        state.waiters[key].state is Inert ==> state.waiters[key].permits == 0,
        state.waiters[key].state is Waiting <==> state.queue.contains(key),
        state.waiters[key].state is Waiting ==> state.waiters[key].permits
            < state.waiters[key].wants && state.waiters[key].waker is Some,
{
    assert(state.waiter_inv(key));
}

/// What holds of the queue: every entry is a waiter, none occurs twice, and
/// there are entries only while the semaphore is open and has no permits
/// available.
pub proof fn law_queue(state: SemaphoreView, i: int)
    requires
        state.inv(),
        0 <= i < state.queue.len(),
    ensures
        state.waiters.dom().contains(state.queue[i]),
        forall|j: int|
            0 <= j < state.queue.len() && j != i ==> #[trigger] state.queue[j] != state.queue[i],
        state.permits == 0,
        !state.closed,
{
    assert(state.queue.contains(state.queue[i]));
}

/// The permits that waiters have collected are the sum of what each of them has
/// collected: without waiters it is zero, and with each waiter that goes it is
/// reduced by the permits of that waiter.
pub proof fn law_collected(state: SemaphoreView, key: usize)
    requires
        state.waiters.dom().contains(key),
    ensures
        state.collected() == state.waiters[key].permits + (SemaphoreView {
            waiters: state.waiters.remove(key),
            ..state
        }).collected(),
        (SemaphoreView { waiters: Map::empty(), ..state }).collected() == 0,
        state.accounted() <==> state.collected() <= state.outstanding,
{
    let bound = usize::MAX as nat + 1;
    let after = SemaphoreView { waiters: state.waiters.remove(key), ..state };
    crate::permits::lemma_collected_insert(state, after, key, bound);
    crate::bound::lemma_collected_nothing(
        SemaphoreView { waiters: Map::empty(), ..state },
        bound,
    );
}

} // verus!

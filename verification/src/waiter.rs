//! The waiters of a semaphore and the queue in which they wait.

use crate::task::Waker;
use vstd::prelude::*;

verus! {

/// The current state of a waiter.
#[derive(Clone, Copy, Debug, PartialEq, Eq, Structural)]
pub enum WaiterState {
    /// The waiter has not been polled yet.
    Inert,
    /// The waiter has been polled and was enqueued.
    Waiting,
    /// The waiter has been notified or polled to completion.
    ///
    /// If it had been enqueued it is now no longer enqueued.
    Woken,
}

/// What is known of a waiter apart from its place in the queue.
pub struct WaiterView {
    /// The number of requested permits.
    pub wants: nat,
    /// The number of already collected permits.
    pub permits: nat,
    /// The state of the waiter.
    pub state: WaiterState,
    /// The task to be woken once the waiter is enqueued.
    pub waker: Option<Waker>,
}

/// A queue-able waiter that will be notified when its requested number of
/// permits has been granted.
#[derive(Clone, Copy)]
pub struct Waiter {
    /// The number of requested permits.
    pub wants: usize,
    /// The counter of already collected permits.
    pub permits: usize,
    /// The waiter's state.
    pub state: WaiterState,
    /// The task to be woken if the waiter is enqueued.
    pub waker: Option<Waker>,
    /// The next enqueued waiter.
    pub next: Option<usize>,
    /// The previous enqueued waiter.
    pub prev: Option<usize>,
}

impl View for Waiter {
    type V = WaiterView;

    open spec fn view(&self) -> WaiterView {
        WaiterView {
            wants: self.wants as nat,
            permits: self.permits as nat,
            state: self.state,
            waker: self.waker,
        }
    }
}

/// The tasks to be woken for the waiters with the given keys.
pub open spec fn wakers(waiters: Map<usize, WaiterView>, keys: Seq<usize>) -> Seq<Waker> {
    keys.map_values(|key: usize| waiters[key].waker->0)
}

/// The waiters after those with the given keys have been notified.
pub open spec fn notified(waiters: Map<usize, WaiterView>, keys: Seq<usize>) -> Map<
    usize,
    WaiterView,
> {
    Map::new(
        |key: usize| waiters.dom().contains(key),
        |key: usize|
            if keys.contains(key) {
                WaiterView { state: WaiterState::Woken, ..waiters[key] }
            } else {
                waiters[key]
            },
    )
}

/// The element of `order` at `i`, if there is one.
spec fn link(order: Seq<usize>, i: int) -> Option<usize> {
    if 0 <= i < order.len() {
        Some(order[i])
    } else {
        None
    }
}

/// All waiters of a semaphore, of which some are linked into a queue.
///
/// Each waiter is found by its key, which stays the same from `insert` to
/// `remove`. The links between enqueued waiters are keys as well.
pub struct WaiterQueue {
    slots: Vec<Option<Waiter>>,
    free: Vec<usize>,
    head: Option<usize>,
    tail: Option<usize>,
    order: Ghost<Seq<usize>>,
}

impl WaiterQueue {
    spec fn occupied(&self, key: usize) -> bool {
        key < self.slots@.len() && self.slots@[key as int] is Some
    }

    spec fn node(&self, key: usize) -> Waiter {
        self.slots@[key as int]->0
    }

    /// The waiters by their keys.
    pub closed spec fn waiters(&self) -> Map<usize, WaiterView> {
        Map::new(|key: usize| self.occupied(key), |key: usize| self.node(key)@)
    }

    /// The keys of the enqueued waiters, from the front to the back.
    pub closed spec fn order(&self) -> Seq<usize> {
        self.order@
    }

    /// Whether the waiter at `i` is present and linked to its neighbours.
    spec fn linked_at(&self, i: int) -> bool {
        &&& self.occupied(self.order@[i])
        &&& self.node(self.order@[i]).next == link(self.order@, i + 1)
        &&& self.node(self.order@[i]).prev == link(self.order@, i - 1)
    }

    spec fn vacant_at(&self, i: int) -> bool {
        &&& self.free@[i] < self.slots@.len()
        &&& self.slots@[self.free@[i] as int] is None
    }

    /// Whether the links form the queue and vacant slots are recorded once.
    pub closed spec fn wf(&self) -> bool {
        &&& self.order@.no_duplicates()
        &&& self.head == link(self.order@, 0)
        &&& self.tail == link(self.order@, self.order@.len() - 1)
        &&& forall|i: int| 0 <= i < self.order@.len() ==> #[trigger] self.linked_at(i)
        &&& self.free@.no_duplicates()
        &&& forall|i: int| 0 <= i < self.free@.len() ==> #[trigger] self.vacant_at(i)
    }

    /// There are no more enqueued waiters than slots.
    proof fn lemma_order_len(&self)
        requires
            self.wf(),
        ensures
            self.order@.len() <= self.slots.len(),
    {
        let keys = self.order@.map_values(|key: usize| key as int);
        let range = vstd::set_lib::set_int_range(0, self.slots@.len() as int);
        assert(keys.no_duplicates());
        keys.unique_seq_to_set();
        vstd::set_lib::lemma_int_range(0, self.slots@.len() as int);
        assert forall|key: int| keys.to_set().contains(key) implies range.contains(key) by {
            let i = choose|i: int| 0 <= i < keys.len() && keys[i] == key;
            assert(self.linked_at(i));
        }
        vstd::set_lib::lemma_len_subset(keys.to_set(), range);
    }

    /// Returns a queue without waiters.
    pub fn new() -> (queue: Self)
        ensures
            queue.wf(),
            queue.order() == Seq::<usize>::empty(),
            queue.waiters() == Map::<usize, WaiterView>::empty(),
    {
        let queue = WaiterQueue {
            slots: Vec::new(),
            free: Vec::new(),
            head: None,
            tail: None,
            order: Ghost(Seq::empty()),
        };
        assert(queue.waiters() =~= Map::empty());
        queue
    }

    /// Adds an inert waiter for `wants` permits and returns its key.
    pub fn insert(&mut self, wants: usize) -> (key: usize)
        requires
            old(self).wf(),
        ensures
            final(self).wf(),
            key < usize::MAX,
            !old(self).waiters().dom().contains(key),
            final(self).order() == old(self).order(),
            final(self).waiters() == old(self).waiters().insert(
                key,
                WaiterView {
                    wants: wants as nat,
                    permits: 0,
                    state: WaiterState::Inert,
                    waker: None,
                },
            ),
    {
        let waiter = Waiter {
            wants,
            permits: 0,
            state: WaiterState::Inert,
            waker: None,
            next: None,
            prev: None,
        };
        let key: usize = match self.free.pop() {
            Some(key) => {
                assert(old(self).vacant_at(old(self).free@.len() - 1));
                self.slots.set(key, Some(waiter));
                key
            },
            None => {
                let key: usize = self.slots.len();
                self.slots.push(Some(waiter));
                key
            },
        };
        assert(key < self.slots.len());
        proof {
            assert forall|i: int| 0 <= i < self.order@.len() implies #[trigger] self.linked_at(i) by {
                assert(old(self).linked_at(i));
            }
            assert forall|i: int| 0 <= i < self.free@.len() implies #[trigger] self.vacant_at(i) by {
                assert(old(self).vacant_at(i));
            }
            assert(self.waiters() =~= old(self).waiters().insert(key, waiter@));
        }
        key
    }

    /// Removes a waiter that is not enqueued.
    pub fn remove(&mut self, key: usize)
        requires
            old(self).wf(),
            old(self).waiters().dom().contains(key),
            !old(self).order().contains(key),
        ensures
            final(self).wf(),
            final(self).order() == old(self).order(),
            final(self).waiters() == old(self).waiters().remove(key),
    {
        self.slots.set(key, None);
        self.free.push(key);
        proof {
            assert forall|i: int| 0 <= i < self.order@.len() implies #[trigger] self.linked_at(i) by {
                assert(old(self).linked_at(i));
                assert(self.order@[i] != key);
            }
            assert forall|i: int| 0 <= i < old(self).free@.len() implies old(self).free@[i] != key by {
                assert(old(self).vacant_at(i));
            }
            assert forall|i: int| 0 <= i < self.free@.len() implies #[trigger] self.vacant_at(i) by {
                if i < old(self).free@.len() {
                    assert(old(self).vacant_at(i));
                }
            }
            assert(self.waiters() =~= old(self).waiters().remove(key));
        }
    }

    /// Returns a copy of a waiter together with its links.
    fn at(&self, key: usize) -> (waiter: Waiter)
        requires
            self.occupied(key),
        ensures
            waiter == self.node(key),
    {
        self.slots[key].unwrap()
    }

    /// Returns a copy of a waiter.
    pub fn get(&self, key: usize) -> (waiter: Waiter)
        requires
            self.wf(),
            self.waiters().dom().contains(key),
        ensures
            waiter@ == self.waiters()[key],
    {
        self.at(key)
    }

    /// Replaces what is known of a waiter, but not its place in the queue.
    pub fn set(&mut self, key: usize, permits: usize, state: WaiterState, waker: Option<Waker>)
        requires
            old(self).wf(),
            old(self).waiters().dom().contains(key),
        ensures
            final(self).wf(),
            final(self).order() == old(self).order(),
            final(self).waiters() == old(self).waiters().insert(
                key,
                WaiterView {
                    wants: old(self).waiters()[key].wants,
                    permits: permits as nat,
                    state,
                    waker,
                },
            ),
    {
        let mut waiter = self.at(key);
        waiter.permits = permits;
        waiter.state = state;
        waiter.waker = waker;
        self.slots.set(key, Some(waiter));
        proof {
            assert forall|i: int| 0 <= i < self.order@.len() implies #[trigger] self.linked_at(i) by {
                assert(old(self).linked_at(i));
            }
            assert forall|i: int| 0 <= i < self.free@.len() implies #[trigger] self.vacant_at(i) by {
                assert(old(self).vacant_at(i));
            }
            assert(self.waiters() =~= old(self).waiters().insert(key, waiter@));
        }
    }

    /// Returns the key of the first enqueued waiter.
    pub fn front(&self) -> (head: Option<usize>)
        requires
            self.wf(),
        ensures
            self.order().len() == 0 ==> head is None,
            self.order().len() > 0 ==> head == Some(self.order()[0]),
    {
        self.head
    }

    /// Returns the number of currently enqueued waiters.
    pub fn len(&self) -> (waiting: usize)
        requires
            self.wf(),
        ensures
            waiting == self.order().len(),
    {
        proof {
            self.lemma_order_len();
        }
        let mut curr: Option<usize> = self.head;
        let mut waiting: usize = 0;
        while curr.is_some()
            invariant
                self.wf(),
                waiting <= self.order@.len() <= self.slots.len(),
                curr == link(self.order@, waiting as int),
            decreases self.order@.len() - waiting,
        {
            assert(self.linked_at(waiting as int));
            curr = self.at(curr.unwrap()).next;
            waiting = waiting + 1;
        }
        waiting
    }

    /// Links a waiter to the given neighbours.
    fn relink(&mut self, key: usize, prev: Option<usize>, next: Option<usize>)
        requires
            old(self).occupied(key),
        ensures
            final(self).slots@ == old(self).slots@.update(
                key as int,
                Some(Waiter { prev, next, ..old(self).node(key) }),
            ),
            final(self).free == old(self).free,
            final(self).head == old(self).head,
            final(self).tail == old(self).tail,
            final(self).order == old(self).order,
    {
        let mut waiter = self.at(key);
        waiter.prev = prev;
        waiter.next = next;
        self.slots.set(key, Some(waiter));
    }

    /// Enqueues a waiter at the back of the queue.
    pub fn push_back(&mut self, key: usize)
        requires
            old(self).wf(),
            old(self).waiters().dom().contains(key),
            !old(self).order().contains(key),
        ensures
            final(self).wf(),
            final(self).order() == old(self).order().push(key),
            final(self).waiters() == old(self).waiters(),
    {
        let ghost order = self.order@;
        let tail = self.tail;
        self.relink(key, tail, None);
        match tail {
            None => {
                // the queue is empty, insert the waiter at the head
                self.head = Some(key);
            },
            Some(last) => {
                // the queue is not empty, insert at the tail
                assert(old(self).linked_at(order.len() - 1));
                let prev = self.at(last).prev;
                self.relink(last, prev, Some(key));
            },
        }
        self.tail = Some(key);
        self.order = Ghost(order.push(key));
        proof {
            assert forall|i: int| 0 <= i < self.order@.len() implies #[trigger] self.linked_at(i) by {
                if i < order.len() {
                    assert(old(self).linked_at(i));
                    assert(order[i] != key);
                }
            }
            assert forall|i: int| 0 <= i < self.free@.len() implies #[trigger] self.vacant_at(i) by {
                assert(old(self).vacant_at(i));
            }
            assert(self.waiters() =~= old(self).waiters());
        }
    }

    /// Removes an enqueued waiter from the queue.
    pub fn try_remove(&mut self, key: usize)
        requires
            old(self).wf(),
            old(self).order().contains(key),
        ensures
            final(self).wf(),
            final(self).order() == old(self).order().remove(old(self).order().index_of(key)),
            final(self).waiters() == old(self).waiters(),
    {
        let ghost order = self.order@;
        let ghost at = order.index_of(key);
        assert(order[at] == key && 0 <= at < order.len());
        assert(self.linked_at(at));
        assert(at > 0 ==> self.linked_at(at - 1));
        assert(at + 1 < order.len() ==> self.linked_at(at + 1));
        let waiter = self.at(key);
        match waiter.prev {
            None => {
                self.head = waiter.next;
            },
            Some(prev) => {
                let before = self.at(prev).prev;
                self.relink(prev, before, waiter.next);
            },
        }
        match waiter.next {
            None => {
                self.tail = waiter.prev;
            },
            Some(next) => {
                assert(self.occupied(next));
                let after = self.at(next).next;
                self.relink(next, waiter.prev, after);
            },
        }
        self.order = Ghost(order.remove(at));
        proof {
            assert forall|i: int| 0 <= i < self.order@.len() implies #[trigger] self.linked_at(i) by {
                if i < at {
                    assert(old(self).linked_at(i));
                } else {
                    assert(old(self).linked_at(i + 1));
                }
            }
            assert forall|i: int| 0 <= i < self.free@.len() implies #[trigger] self.vacant_at(i) by {
                assert(old(self).vacant_at(i));
            }
            assert(self.waiters() =~= old(self).waiters());
        }
    }

    /// Removes `head` from the front of the queue.
    pub fn pop_front(&mut self, head: usize)
        requires
            old(self).wf(),
            old(self).order().len() > 0,
            old(self).order()[0] == head,
        ensures
            final(self).wf(),
            final(self).order() == old(self).order().skip(1),
            final(self).waiters() == old(self).waiters(),
    {
        let ghost order = self.order@;
        assert(self.linked_at(0));
        assert(order.len() > 1 ==> self.linked_at(1));
        self.head = self.at(head).next;
        match self.head {
            None => {
                self.tail = None;
            },
            Some(next) => {
                let after = self.at(next).next;
                self.relink(next, None, after);
            },
        }
        self.order = Ghost(order.skip(1));
        proof {
            assert forall|i: int| 0 <= i < self.order@.len() implies #[trigger] self.linked_at(i) by {
                assert(old(self).linked_at(i + 1));
            }
            assert forall|i: int| 0 <= i < self.free@.len() implies #[trigger] self.vacant_at(i) by {
                assert(old(self).vacant_at(i));
            }
            assert(self.waiters() =~= old(self).waiters());
        }
    }

    /// Notifies all enqueued waiters and returns their number.
    ///
    /// The waiters stay enqueued until the queue is cleared.
    pub fn wake_all(&mut self, wakes: &mut Vec<Waker>) -> (woken: usize)
        requires
            old(self).wf(),
            forall|i: int|
                0 <= i < old(self).order().len() ==> old(self).waiters()[#[trigger] old(
                    self,
                ).order()[i]].waker is Some,
        ensures
            final(self).wf(),
            woken == old(self).order().len(),
            final(self).order() == old(self).order(),
            final(self).waiters() == notified(old(self).waiters(), old(self).order()),
            final(wakes)@ == old(wakes)@ + wakers(old(self).waiters(), old(self).order()),
    {
        let ghost before = self.waiters();
        let ghost order = self.order();
        let mut curr: Option<usize> = self.head;
        let mut woken: usize = 0;
        assert(notified(before, order.take(0)) =~= before);
        assert(old(wakes)@ + wakers(before, order.take(0)) =~= old(wakes)@);
        proof {
            self.lemma_order_len();
        }
        while curr.is_some()
            invariant
                self.wf(),
                self.order@ == order,
                woken <= order.len() <= self.slots.len(),
                curr == link(order, woken as int),
                self.waiters() == notified(before, order.take(woken as int)),
                wakes@ == old(wakes)@ + wakers(before, order.take(woken as int)),
                order.no_duplicates(),
                forall|i: int|
                    0 <= i < order.len() ==> before[#[trigger] order[i]].waker is Some,
            decreases order.len() - woken,
        {
            let ghost done = order.take(woken as int);
            let key: usize = curr.unwrap();
            assert(self.linked_at(woken as int));
            let waiter = self.at(key);
            assert(key == order[woken as int]);
            assert(!done.contains(key));
            assert(self.waiters().dom().contains(key));
            assert(self.waiters()[key] == waiter@);
            assert(waiter@ == before[key]);
            self.set(key, waiter.permits, WaiterState::Woken, waiter.waker);
            wakes.push(waiter.waker.unwrap());
            assert(self.slots.len() >= order.len()) by {
                self.lemma_order_len();
            }
            curr = waiter.next;
            proof {
                let more = order.take(woken + 1);
                assert(more =~= done.push(key));
                assert forall|other: usize| more.contains(other) <==> (done.contains(other) || other
                    == key) by {
                    if done.contains(other) {
                        let i = choose|i: int| 0 <= i < done.len() && done[i] == other;
                        assert(more[i] == other);
                    }
                    assert(more[woken as int] == key);
                }
                assert(self.waiters() =~= notified(before, more));
                assert(wakers(before, more) =~= wakers(before, done).push(waiter.waker->0));
            }
            woken = woken + 1;
        }
        assert(order.take(woken as int) =~= order);
        woken
    }

    /// Removes all waiters from the queue.
    pub fn clear(&mut self)
        requires
            old(self).wf(),
        ensures
            final(self).wf(),
            final(self).order() == Seq::<usize>::empty(),
            final(self).waiters() == old(self).waiters(),
    {
        self.head = None;
        self.tail = None;
        self.order = Ghost(Seq::empty());
        proof {
            assert forall|i: int| 0 <= i < self.free@.len() implies #[trigger] self.vacant_at(i) by {
                assert(old(self).vacant_at(i));
            }
            assert(self.waiters() =~= old(self).waiters());
        }
    }
}

} // verus!

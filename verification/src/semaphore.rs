//! A simple asynchronous semaphore for limiting and sequencing access
//! to arbitrary shared resources.

use crate::identity::InstanceId;
use crate::task::{Poll, Waker};
use crate::waiter::WaiterQueue;
use vstd::prelude::*;

pub use crate::permits::{Acquisition, SemaphoreView};
pub use crate::waiter::{WaiterState, WaiterView};

verus! {

/// An error which can occur when a [`Semaphore`] has been closed.
#[derive(Clone, Copy, Debug, PartialEq, PartialOrd)]
pub struct AcquireError(());

impl AcquireError {
    /// Returns the description of the error.
    pub fn message(&self) -> (text: &'static str)
        ensures
            text@ == "semaphore closed"@,
    {
        "semaphore closed"
    }
}

/// An error which can occur when a [`Semaphore`] has been closed or has no
/// available permits.
#[derive(Clone, Copy, Debug, PartialEq, Eq, PartialOrd, Structural)]
pub enum TryAcquireError {
    /// The semaphore has been [closed](Semaphore::close) and can not issue new
    /// permits.
    Closed,
    /// The semaphore has no available permits.
    NoPermits,
}

impl TryAcquireError {
    /// Returns the description of the error.
    pub fn message(&self) -> (text: &'static str)
        ensures
            *self is Closed ==> text@ == "semaphore closed"@,
            *self is NoPermits ==> text@ == "no permits available"@,
    {
        match self {
            TryAcquireError::Closed => "semaphore closed",
            TryAcquireError::NoPermits => "no permits available",
        }
    }
}

/// A simple semaphore for asynchronous permit acquisition.
pub struct Semaphore {
    /// The waiters, of which some are enqueued.
    queue: WaiterQueue,
    /// The number of currently available permits.
    permits: usize,
    /// The number of currently outstanding permits.
    outstanding: usize,
    /// The flag indicating if the semaphore has been closed.
    closed: bool,
    /// The tasks that have been woken and were not taken yet.
    wakes: Vec<Waker>,
    /// The identity that the permits share.
    id: InstanceId,
}

impl View for Semaphore {
    type V = SemaphoreView;

    closed spec fn view(&self) -> SemaphoreView {
        SemaphoreView {
            permits: self.permits as nat,
            outstanding: self.outstanding as nat,
            closed: self.closed,
            queue: self.queue.order(),
            waiters: self.queue.waiters(),
            wakes: self.wakes@,
        }
    }
}

impl Semaphore {
    /// The identity of the semaphore, which its permits share.
    pub closed spec fn id(&self) -> usize {
        self.id@
    }

    /// Whether the links between the waiters are intact.
    pub closed spec fn linked(&self) -> bool {
        self.queue.wf()
    }

    /// What holds of every semaphore.
    pub open spec fn wf(&self) -> bool {
        self.linked() && self@.inv()
    }

    /// Creates a new semaphore with the initial number of permits.
    pub fn new(permits: usize) -> (semaphore: Self)
        ensures
            semaphore.wf(),
            semaphore@ == (SemaphoreView {
                permits: permits as nat,
                outstanding: 0,
                closed: false,
                queue: Seq::empty(),
                waiters: Map::empty(),
                wakes: Seq::empty(),
            }),
    {
        Semaphore {
            queue: WaiterQueue::new(),
            permits,
            outstanding: 0,
            closed: false,
            wakes: Vec::new(),
            id: InstanceId::new(),
        }
    }

    /// Returns a copy of the identity of the semaphore.
    pub fn share_id(&self) -> (id: InstanceId)
        ensures
            id@ == self.id(),
    {
        self.id.share()
    }

    /// Adds `n` new permits to the semaphore and wakes all waiters whose
    /// requests can now be completed.
    pub fn add_permits(&mut self, n: usize)
        requires
            old(self).wf(),
        ensures
            final(self).wf(),
            final(self).id() == old(self).id(),
            final(self)@ == old(self)@.grant(n as nat),
    {
        let ghost start = self@;
        let ghost mut done: nat = 0;
        let mut rest: usize = n;
        proof {
            assert(start.complete(0).waiters =~= start.waiters);
            assert(start.complete(0).queue =~= start.queue);
            assert(start.complete(0).wakes =~= start.wakes);
            crate::permits::lemma_grant_inv(start, n as nat);
        }
        while rest > 0
            invariant
                start == old(self)@,
                start.inv(),
                start.grant(n as nat).inv(),
                self.linked(),
                self.id() == old(self).id(),
                done <= start.queue.len(),
                self@ == start.complete(done),
                rest == n - start.demand(done),
            decreases start.queue.len() - done, rest,
        {
            proof {
                crate::permits::lemma_complete_inv(start, done);
            }
            // keep checking the waiter queue until all permits are distributed
            match self.queue.front() {
                Some(key) => {
                    proof {
                        crate::permits::lemma_complete_step(start, done);
                    }
                    // check how many permits have already been assigned and
                    // how many were requested
                    let waiter = self.queue.get(key);
                    let diff: usize = waiter.wants - waiter.permits;
                    if diff > rest {
                        // the waiter wants more permits than are still
                        // available, it gets all of them
                        self.queue.set(key, waiter.permits + rest, waiter.state, waiter.waker);
                        self.outstanding = self.outstanding.saturating_add(rest);
                        proof {
                            crate::permits::lemma_served(start, n as nat, done, start.queue.len());
                            assert(self@ == start.grant(n as nat));
                        }
                        return ;
                    } else {
                        // the waiter's request can be completed, assign all
                        // missing permits, wake and dequeue the waiter
                        self.queue.set(key, waiter.wants, WaiterState::Woken, waiter.waker);
                        self.outstanding = self.outstanding.saturating_add(diff);
                        self.wakes.push(waiter.waker.unwrap());
                        self.queue.pop_front(key);
                        rest = rest - diff;
                        proof {
                            done = done + 1;
                            assert(self@ == start.complete(done));
                        }
                    }
                },
                None => {
                    self.permits = self.permits.saturating_add(rest);
                    proof {
                        crate::permits::lemma_served(start, n as nat, done, start.queue.len());
                        assert(self@ == start.grant(n as nat));
                    }
                    return ;
                },
            }
        }
        proof {
            if done < start.queue.len() {
                crate::permits::lemma_complete_step(start, done);
            }
            crate::permits::lemma_served(start, n as nat, done, start.queue.len());
            assert(self@.waiters =~= start.grant(n as nat).waiters);
            assert(self@ == start.grant(n as nat));
        }
    }

    /// Closes the semaphore and returns the number of notified pending waiters.
    ///
    /// This prevents the semaphore from issuing new permits and notifies all
    /// pending waiters.
    pub fn close(&mut self) -> (woken: usize)
        requires
            old(self).wf(),
        ensures
            final(self).wf(),
            final(self).id() == old(self).id(),
            final(self)@ == old(self)@.close(),
            woken == old(self)@.queue.len(),
    {
        proof {
            crate::permits::lemma_close_inv(self@);
            assert forall|i: int| 0 <= i < self@.queue.len() implies self@.waiters[
                #[trigger] self@.queue[i]
            ].waker is Some by {
                assert(self@.waiter_inv(self@.queue[i]));
                assert(self@.queue.contains(self@.queue[i]));
            }
        }
        let woken: usize = self.queue.wake_all(&mut self.wakes);
        self.closed = true;
        self.queue.clear();
        woken
    }

    /// Returns `true` if the semaphore has been closed.
    pub fn is_closed(&self) -> (closed: bool)
        ensures
            closed == self@.closed,
    {
        self.closed
    }

    /// Returns the number of currently enqueued waiters.
    pub fn waiters(&self) -> (waiting: usize)
        requires
            self.wf(),
        ensures
            waiting == self@.queue.len(),
    {
        self.queue.len()
    }

    /// Returns the current number of available permits.
    pub fn available_permits(&self) -> (permits: usize)
        ensures
            permits == self@.permits,
    {
        self.permits
    }

    /// Returns the current number of handed out permits.
    pub fn outstanding_permits(&self) -> (permits: usize)
        ensures
            permits == self@.outstanding,
    {
        self.outstanding
    }

    /// Permanently reduces the number of available permits by `n`.
    pub fn remove_permits(&mut self, n: usize)
        requires
            old(self).wf(),
        ensures
            final(self).wf(),
            final(self).id() == old(self).id(),
            final(self)@ == old(self)@.shrink(n as nat),
    {
        self.permits = self.permits.saturating_sub(n);
        proof {
            crate::permits::lemma_counts_inv(old(self)@, self@);
        }
    }

    /// Acquires `n` permits and forgets them at once, which permanently reduces
    /// the number of available permits.
    ///
    /// # Errors
    ///
    /// Fails, if the semaphore has been closed or has not enough available
    /// permits.
    pub fn try_remove_permits(&mut self, n: usize) -> (result: Result<(), TryAcquireError>)
        requires
            old(self).wf(),
        ensures
            final(self).wf(),
            final(self).id() == old(self).id(),
            match old(self)@.refusal(n as nat) {
                Some(error) => result == Err::<(), _>(error) && final(self)@ == old(self)@,
                None => result == Ok::<(), TryAcquireError>(()) && final(self)@
                    == old(self)@.shrink(n as nat),
            },
    {
        if self.closed {
            return Err(TryAcquireError::Closed);
        }
        if n > self.permits {
            return Err(TryAcquireError::NoPermits);
        }
        self.remove_permits(n);
        Ok(())
    }

    /// Returns `n` previously "forgotten" permits back to the semaphore.
    ///
    /// This method complements [`Permit::forget`] and has no other uses.
    /// Forgotten permits are no longer counted as handed out, so the number of
    /// handed out permits grows only by those that are transferred to waiters.
    pub fn return_permits(&mut self, n: usize)
        requires
            old(self).wf(),
        ensures
            final(self).wf(),
            final(self).id() == old(self).id(),
            final(self)@ == old(self)@.grant(n as nat),
    {
        self.add_permits(n);
    }

    /// Attempts to reduce available permits by `n`, or by up to `n` if not
    /// strict, or returns an error, if the semaphore has been closed or has no
    /// available permits.
    fn take_permits<const STRICT: bool>(&mut self, n: usize) -> (taken: Result<
        usize,
        TryAcquireError,
    >)
        requires
            old(self).wf(),
        ensures
            final(self).wf(),
            final(self).id() == old(self).id(),
            final(self).queue == old(self).queue,
            match taken {
                Ok(count) => {
                    &&& !old(self)@.closed
                    &&& final(self)@ == old(self)@.take(count as nat)
                    &&& n <= old(self)@.permits ==> count == n
                    &&& n > old(self)@.permits ==> !STRICT && count == old(self)@.permits && count
                        > 0
                },
                Err(error) => {
                    &&& final(self)@ == old(self)@
                    &&& old(self)@.refusal(n as nat) == Some(error)
                    &&& error is NoPermits ==> STRICT || old(self)@.permits == 0
                },
            },
    {
        if self.is_closed() {
            return Err(TryAcquireError::Closed);
        }
        if n > self.permits {
            if STRICT || self.permits == 0 {
                return Err(TryAcquireError::NoPermits);
            }
            // hand out all available permits

            let count: usize = self.permits;
            self.permits = 0;
            self.outstanding = self.outstanding.saturating_add(count);
            proof {
                crate::permits::lemma_counts_inv(old(self)@, self@);
            }
            Ok(count)
        } else {
            self.permits = self.permits - n;
            self.outstanding = self.outstanding.saturating_add(n);
            proof {
                crate::permits::lemma_counts_inv(old(self)@, self@);
            }
            Ok(n)
        }
    }

    /// Acquires a single [`Permit`] or returns an [error](TryAcquireError), if
    /// there are no available permits.
    ///
    /// # Errors
    ///
    /// Fails, if the semaphore has been closed or has no available permits.
    pub fn try_acquire(&mut self) -> (result: Result<Permit, TryAcquireError>)
        requires
            old(self).wf(),
        ensures
            final(self).wf(),
            final(self).id() == old(self).id(),
            match old(self)@.refusal(1) {
                Some(error) => result == Err::<Permit, _>(error) && final(self)@ == old(self)@,
                None => {
                    &&& result matches Ok(permit) && permit@ == 1 && permit.id() == old(self).id()
                    &&& final(self)@ == old(self)@.take(1)
                },
            },
    {
        self.try_acquire_many(1)
    }

    /// Acquires `n` [`Permit`]s or returns an [error](TryAcquireError), if
    /// there are not enough available permits.
    ///
    /// # Errors
    ///
    /// Fails, if the semaphore has been closed or has not enough available
    /// permits.
    pub fn try_acquire_many(&mut self, n: usize) -> (result: Result<Permit, TryAcquireError>)
        requires
            old(self).wf(),
        ensures
            final(self).wf(),
            final(self).id() == old(self).id(),
            match old(self)@.refusal(n as nat) {
                Some(error) => result == Err::<Permit, _>(error) && final(self)@ == old(self)@,
                None => {
                    &&& result matches Ok(permit) && permit@ == n && permit.id() == old(self).id()
                    &&& final(self)@ == old(self)@.take(n as nat)
                },
            },
    {
        match self.take_permits::<true>(n) {
            Ok(_) => Ok(Permit::new(self, n)),
            Err(error) => Err(error),
        }
    }

    /// Acquires a single [`Permit`], potentially waiting until one becomes
    /// available.
    ///
    /// # Errors
    ///
    /// Polling the [`Acquire`] fails, if the semaphore has been closed.
    pub fn acquire(&mut self) -> (acquire: Acquire)
        requires
            old(self).wf(),
        ensures
            final(self).wf(),
            final(self).id() == old(self).id(),
            acquire.id() == old(self).id(),
            acquire@ < usize::MAX,
            !old(self)@.waiters.dom().contains(acquire@),
            final(self)@ == old(self)@.register(acquire@, 1),
    {
        self.build_acquire(1)
    }

    /// Acquires `n` [`Permit`]s, potentially waiting until they become
    /// available.
    ///
    /// # Errors
    ///
    /// Polling the [`Acquire`] fails, if the semaphore has been closed.
    pub fn acquire_many(&mut self, n: usize) -> (acquire: Acquire)
        requires
            old(self).wf(),
        ensures
            final(self).wf(),
            final(self).id() == old(self).id(),
            acquire.id() == old(self).id(),
            acquire@ < usize::MAX,
            !old(self)@.waiters.dom().contains(acquire@),
            final(self)@ == old(self)@.register(acquire@, n as nat),
    {
        self.build_acquire(n)
    }

    /// Returns a correctly initialized [`Acquire`] instance for acquiring
    /// `wants` permits.
    pub fn build_acquire(&mut self, wants: usize) -> (acquire: Acquire)
        requires
            old(self).wf(),
        ensures
            final(self).wf(),
            final(self).id() == old(self).id(),
            acquire.id() == old(self).id(),
            acquire@ < usize::MAX,
            !old(self)@.waiters.dom().contains(acquire@),
            final(self)@ == old(self)@.register(acquire@, wants as nat),
    {
        let key: usize = self.queue.insert(wants);
        proof {
            crate::permits::lemma_register_inv(old(self)@, key, wants as nat);
        }
        Acquire { key, id: self.id.share() }
    }

    /// Polls a waiter; once its request is complete, its permits are to be
    /// handed over.
    fn poll_acquire(&mut self, key: usize, waker: Waker) -> (result: Poll<Result<(), AcquireError>>)
        requires
            old(self).wf(),
            old(self)@.waiters.dom().contains(key),
        ensures
            final(self).linked(),
            final(self).id() == old(self).id(),
            final(self)@.waiters.dom() == old(self)@.waiters.dom(),
            match old(self)@.poll_outcome(key) {
                Acquisition::Acquired(count) => {
                    &&& result matches Poll::Ready(Ok(_))
                    &&& final(self)@.waiters[key].permits == count
                    &&& final(self)@.waiters[key].wants == old(self)@.waiters[key].wants
                    &&& final(self)@.waiters[key].waker == old(self)@.waiters[key].waker
                    &&& final(self)@.with_waiter(key, old(self)@.poll(key, waker).waiters[key])
                        == old(self)@.poll(key, waker)
                },
                Acquisition::Closed => {
                    &&& result matches Poll::Ready(Err(_))
                    &&& final(self)@ == old(self)@
                },
                Acquisition::Pending => {
                    &&& result is Pending
                    &&& final(self)@ == old(self)@.poll(key, waker)
                },
            },
    {
        if self.closed {
            return Poll::Ready(Err(AcquireError(())));
        }
        match self.queue.get(key).state {
            WaiterState::Woken => {
                proof {
                    let after = self@.poll(key, waker);
                    assert(self@.with_waiter(key, after.waiters[key]).waiters =~= after.waiters);
                }
                Poll::Ready(Ok(()))
            },
            WaiterState::Inert => self.poll_acquire_initial(key, waker),
            WaiterState::Waiting => Poll::Pending,
        }
    }

    /// Polls a waiter for the first time.
    fn poll_acquire_initial(&mut self, key: usize, waker: Waker) -> (result: Poll<
        Result<(), AcquireError>,
    >)
        requires
            old(self).wf(),
            old(self)@.waiters.dom().contains(key),
            old(self)@.waiters[key].state is Inert,
            !old(self)@.closed,
        ensures
            final(self).linked(),
            final(self).id() == old(self).id(),
            final(self)@.waiters.dom() == old(self)@.waiters.dom(),
            match old(self)@.poll_outcome(key) {
                Acquisition::Acquired(count) => {
                    &&& result matches Poll::Ready(Ok(_))
                    &&& final(self)@.waiters[key].permits == count
                    &&& final(self)@.waiters[key].wants == old(self)@.waiters[key].wants
                    &&& final(self)@.waiters[key].waker == old(self)@.waiters[key].waker
                    &&& final(self)@.with_waiter(key, old(self)@.poll(key, waker).waiters[key])
                        == old(self)@.poll(key, waker)
                },
                Acquisition::Closed => false,
                Acquisition::Pending => {
                    &&& result is Pending
                    &&& final(self)@ == old(self)@.poll(key, waker)
                },
            },
    {
        // on the first poll, check if there are enough permits to resolve
        // immediately or enqueue the waiter to be notified (i.e. polled again)
        // later
        let waiter = self.queue.get(key);
        let mut permits: usize = 0;
        assert(self@.waiter_inv(key));
        match self.take_permits::<false>(waiter.wants) {
            Ok(n) => {
                // check if we got the desired amount or less
                permits = n;
                self.queue.set(key, n, waiter.state, waiter.waker);
                if n == waiter.wants {
                    proof {
                        let after = old(self)@.poll(key, waker);
                        assert(self@.waiters.dom() =~= old(self)@.waiters.dom());
                        assert(self@.with_waiter(key, after.waiters[key]).waiters =~= after.waiters);
                    }
                    return Poll::Ready(Ok(()));
                }
            },
            Err(_) => {},
        }

        // if no or not enough permits are currently available, enqueue the
        // waiter to be notified when capacity becomes available
        self.queue.set(key, permits, WaiterState::Waiting, Some(waker));
        self.queue.push_back(key);
        proof {
            let after = old(self)@.poll(key, waker);
            assert(self@.waiters =~= after.waiters);
            assert(self@.waiters.dom() =~= old(self)@.waiters.dom());
        }
        Poll::Pending
    }

    /// Takes the tasks that have been woken since they were last taken.
    pub fn take_wakes(&mut self) -> (wakes: Vec<Waker>)
        requires
            old(self).wf(),
        ensures
            final(self).wf(),
            final(self).id() == old(self).id(),
            wakes@ == old(self)@.wakes,
            final(self)@ == (SemaphoreView { wakes: Seq::empty(), ..old(self)@ }),
    {
        let mut wakes: Vec<Waker> = Vec::new();
        core::mem::swap(&mut wakes, &mut self.wakes);
        proof {
            crate::permits::lemma_counts_inv(old(self)@, self@);
        }
        wakes
    }
}

/// A permit representing access to the [`Semaphore`]'s guarded resource.
///
/// The view of a permit is the number of permits that it stands for.
pub struct Permit {
    count: usize,
    id: InstanceId,
}

impl View for Permit {
    type V = nat;

    closed spec fn view(&self) -> nat {
        self.count as nat
    }
}

impl Permit {
    /// The identity of the semaphore that the permit belongs to.
    pub closed spec fn id(&self) -> usize {
        self.id@
    }

    /// Returns a new [`Permit`] without actually acquiring it.
    fn new(semaphore: &Semaphore, count: usize) -> (permit: Self)
        ensures
            permit@ == count,
            permit.id() == semaphore.id(),
    {
        Permit { count, id: semaphore.id.share() }
    }

    /// Returns the number of permits that this permit stands for.
    pub fn count(&self) -> (count: usize)
        ensures
            count == self@,
    {
        self.count
    }

    /// Drops the permit without returning it to the [`Semaphore`].
    ///
    /// This permanently reduces the number of available permits.
    pub fn forget(self, semaphore: &mut Semaphore)
        requires
            old(semaphore).wf(),
            self.id() == old(semaphore).id(),
            old(semaphore)@.outstanding >= self@,
        ensures
            final(semaphore).wf(),
            final(semaphore).id() == old(semaphore).id(),
            final(semaphore)@ == old(semaphore)@.forget(self@),
    {
        semaphore.outstanding = semaphore.outstanding - self.count;
        proof {
            crate::permits::lemma_counts_inv(old(semaphore)@, semaphore@);
        }
    }

    /// Drops the permit and returns it to the [`Semaphore`].
    pub fn drop(self, semaphore: &mut Semaphore)
        requires
            old(semaphore).wf(),
            self.id() == old(semaphore).id(),
        ensures
            final(semaphore).wf(),
            final(semaphore).id() == old(semaphore).id(),
            final(semaphore)@ == old(semaphore)@.give_back(self@),
    {
        // the order is important here, because `add_permits` may mark permits
        // as handed out again, if they are transferred to other waiters
        semaphore.outstanding = semaphore.outstanding.saturating_sub(self.count);
        proof {
            crate::permits::lemma_counts_inv(old(semaphore)@, semaphore@);
        }
        semaphore.add_permits(self.count);
    }
}

/// The pending acquisition returned by [`acquire`](Semaphore::acquire), which
/// resolves when the required number of permits becomes available.
///
/// The view of an acquisition is the key of its waiter.
pub struct Acquire {
    key: usize,
    id: InstanceId,
}

impl View for Acquire {
    type V = usize;

    closed spec fn view(&self) -> usize {
        self.key
    }
}

impl Acquire {
    /// The identity of the semaphore that the acquisition belongs to.
    pub closed spec fn id(&self) -> usize {
        self.id@
    }

    /// Polls for the permits from the task `waker`, which is woken once they
    /// are available.
    pub fn poll(&mut self, semaphore: &mut Semaphore, waker: Waker) -> (result: Poll<
        Result<Permit, AcquireError>,
    >)
        requires
            old(semaphore).wf(),
            old(self).id() == old(semaphore).id(),
            old(semaphore)@.waiters.dom().contains(old(self)@),
        ensures
            final(semaphore).wf(),
            final(semaphore).id() == old(semaphore).id(),
            final(self)@ == old(self)@,
            final(self).id() == old(self).id(),
            final(semaphore)@ == old(semaphore)@.poll(old(self)@, waker),
            match old(semaphore)@.poll_outcome(old(self)@) {
                Acquisition::Acquired(count) => result matches Poll::Ready(Ok(permit)) && permit@
                    == count && permit.id() == old(semaphore).id(),
                Acquisition::Closed => result matches Poll::Ready(Err(_)),
                Acquisition::Pending => result is Pending,
            },
    {
        let key: usize = self.key;
        let ghost start = semaphore@;
        proof {
            crate::permits::lemma_poll_inv(start, key, waker);
        }
        match semaphore.poll_acquire(key, waker) {
            Poll::Ready(result) => {
                // unconditionally marking the waiter as woken here avoids
                // having to remove it from the queue when it is dropped
                let waiter = semaphore.queue.get(key);
                match result {
                    Ok(_) => {
                        let count: usize = waiter.permits;
                        semaphore.queue.set(key, 0, WaiterState::Woken, waiter.waker);
                        Poll::Ready(Ok(Permit::new(semaphore, count)))
                    },
                    Err(error) => {
                        semaphore.queue.set(
                            key,
                            waiter.permits,
                            WaiterState::Woken,
                            waiter.waker,
                        );
                        Poll::Ready(Err(error))
                    },
                }
            },
            Poll::Pending => Poll::Pending,
        }
    }

    /// Returns `true` if all permits that were collected are counted as handed
    /// out by the semaphore.
    pub fn is_accounted(&self, semaphore: &Semaphore) -> (result: bool)
        requires
            semaphore.wf(),
            self.id() == semaphore.id(),
            semaphore@.waiters.dom().contains(self@),
        ensures
            result == (semaphore@.waiters[self@].permits <= semaphore@.outstanding),
    {
        semaphore.queue.get(self.key).permits <= semaphore.outstanding
    }

    /// Removes the acquisition from the semaphore and returns the number of
    /// permits that were collected but not passed on into a [`Permit`].
    ///
    /// These permits are no longer counted as handed out.
    pub fn detach(self, semaphore: &mut Semaphore) -> (permits: usize)
        requires
            old(semaphore).wf(),
            self.id() == old(semaphore).id(),
            old(semaphore)@.waiters.dom().contains(self@),
            old(semaphore)@.outstanding >= old(semaphore)@.waiters[self@].permits,
        ensures
            final(semaphore).wf(),
            final(semaphore).id() == old(semaphore).id(),
            final(semaphore)@ == old(semaphore)@.unregister(self@),
            permits == old(semaphore)@.waiters[self@].permits,
    {
        let key: usize = self.key;
        let ghost start = semaphore@;
        proof {
            crate::permits::lemma_unregister_inv(start, key);
            assert(start.waiter_inv(key));
        }
        let waiter = semaphore.queue.get(key);
        // remove the waiter from the queue, if it was enqueued
        if let WaiterState::Waiting = waiter.state {
            semaphore.queue.try_remove(key);
        }
        assert(!semaphore.queue.order().contains(key)) by {
            let order = semaphore.queue.order();
            if start.queue.contains(key) && order.contains(key) {
                let at = start.queue.index_of(key);
                let i = choose|i: int| 0 <= i < order.len() && order[i] == key;
                assert(start.queue[if i < at { i } else { i + 1 }] == key);
            }
        }
        semaphore.queue.remove(key);
        semaphore.outstanding = semaphore.outstanding - waiter.permits;
        waiter.permits
    }

    /// Drops the acquisition and returns all permits that were collected but
    /// not passed on into a [`Permit`] back to the semaphore.
    pub fn drop(self, semaphore: &mut Semaphore)
        requires
            old(semaphore).wf(),
            self.id() == old(semaphore).id(),
            old(semaphore)@.waiters.dom().contains(self@),
            old(semaphore)@.outstanding >= old(semaphore)@.waiters[self@].permits,
        ensures
            final(semaphore).wf(),
            final(semaphore).id() == old(semaphore).id(),
            final(semaphore)@ == old(semaphore)@.cancel(self@),
    {
        // the order is important here, because `add_permits` may mark permits
        // as handed out again, if they are transferred to other waiters
        let permits: usize = self.detach(semaphore);
        semaphore.add_permits(permits);
    }
}

} // verus!

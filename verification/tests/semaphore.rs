use async_unsync::semaphore::{Acquire, AcquireError, Permit, Semaphore};
use async_unsync::{Poll, Waker};

const TASK: Waker = Waker { task: 1 };

/// Polls a future that must have resolved.
fn resolve(fut: &mut Acquire, sem: &mut Semaphore) -> Result<Permit, AcquireError> {
    match fut.poll(sem, TASK) {
        Poll::Ready(result) => result,
        Poll::Pending => panic!("acquire future should have resolved"),
    }
}

/// Polls a future to completion and drops it.
fn complete(mut fut: Acquire, sem: &mut Semaphore) -> Result<Permit, AcquireError> {
    let result = resolve(&mut fut, sem);
    fut.drop(sem);
    result
}

#[test]
fn try_acquire_one() {
    let mut sem = Semaphore::new(0);
    assert!(sem.try_acquire().is_err());
    sem.add_permits(2);
    let p1 = sem.try_acquire().ok().unwrap();
    let p2 = sem.try_acquire().ok().unwrap();
    assert_eq!(sem.available_permits(), 0);
    assert_eq!(sem.outstanding_permits(), 2);

    p1.drop(&mut sem);
    p2.drop(&mut sem);
    assert_eq!(sem.available_permits(), 2);
    assert_eq!(sem.outstanding_permits(), 0);
}

#[test]
fn try_acquire_many() {
    let mut sem = Semaphore::new(0);
    assert!(sem.try_acquire_many(3).is_err());
    sem.add_permits(2);
    assert!(sem.try_acquire_many(3).is_err());
    sem.add_permits(1);
    let permit = sem.try_acquire_many(3).ok().unwrap();
    assert_eq!(permit.count(), 3);
    assert_eq!(sem.outstanding_permits(), 3);
    permit.drop(&mut sem);
    assert_eq!(sem.available_permits(), 3);
    assert_eq!(sem.outstanding_permits(), 0);
}

#[test]
fn acquire_never() {
    let mut sem = Semaphore::new(0);
    let mut fut = sem.acquire();
    assert!(fut.poll(&mut sem, TASK).is_pending());

    assert_eq!(sem.available_permits(), 0);
    assert_eq!(sem.outstanding_permits(), 0);
    fut.drop(&mut sem);
}

#[test]
fn acquire() {
    let mut sem = Semaphore::new(0);
    let mut fut = sem.acquire();
    assert!(fut.poll(&mut sem, TASK).is_pending());

    sem.add_permits(1);
    let permit = resolve(&mut fut, &mut sem).unwrap_or_else(|_| panic!());
    permit.drop(&mut sem);
    assert_eq!(sem.available_permits(), 1);
    fut.drop(&mut sem);
}

#[test]
fn acquire_one() {
    let mut sem = Semaphore::new(0);
    let mut fut = sem.acquire();

    // poll future once to enqueue waiter
    assert!(fut.poll(&mut sem, TASK).is_pending());
    assert_eq!(sem.waiters(), 1);
    // add 2 permits, one goes directly to the enqueued waiter and wakes it, one
    // goes into the semaphore
    sem.add_permits(2);
    assert_eq!(sem.outstanding_permits(), 1);

    // future must resolve now, since it has been woken
    assert_eq!(sem.take_wakes(), vec![TASK]);
    let permit = resolve(&mut fut, &mut sem).ok().unwrap();
    assert_eq!(sem.available_permits(), 1);
    assert_eq!(sem.outstanding_permits(), 1);
    permit.drop(&mut sem);
    assert_eq!(sem.available_permits(), 2);
    assert_eq!(sem.outstanding_permits(), 0);
    fut.drop(&mut sem);
    assert_eq!(sem.available_permits(), 2);
}

#[test]
fn poll_acquire_after_completion() {
    let mut sem = Semaphore::new(0);
    let mut fut = sem.acquire();
    assert!(fut.poll(&mut sem, TASK).is_pending());

    sem.add_permits(1);

    let first = resolve(&mut fut, &mut sem).ok().unwrap();
    first.drop(&mut sem);
    // polling again after completion works, but hands out no permit
    let second = resolve(&mut fut, &mut sem).ok().unwrap();
    assert_eq!(second.count(), 0);
    second.drop(&mut sem);

    assert_eq!(sem.available_permits(), 1);
    fut.drop(&mut sem);
    assert_eq!(sem.available_permits(), 1);
}

#[test]
fn poll_future() {
    let mut sem = Semaphore::new(0);
    let mut fut = sem.build_acquire(1);

    assert!(fut.poll(&mut sem, TASK).is_pending());
    assert_eq!(sem.waiters(), 1);
    sem.add_permits(1);
    assert_eq!(sem.outstanding_permits(), 1);

    assert!(fut.poll(&mut sem, TASK).is_ready());
    fut.drop(&mut sem);
    assert_eq!(sem.waiters(), 0);
}

#[test]
fn acquire_many() {
    let mut sem = Semaphore::new(0);
    let mut f1 = sem.acquire_many(2);
    let mut f2 = sem.acquire_many(1);

    // poll both futures once to establish order
    assert!(f1.poll(&mut sem, Waker { task: 1 }).is_pending());
    assert!(f2.poll(&mut sem, Waker { task: 2 }).is_pending());

    assert_eq!(sem.waiters(), 2);
    sem.add_permits(1);
    assert_eq!(sem.outstanding_permits(), 1);

    // due to established order, f2 must not resolve before f1
    assert!(f2.poll(&mut sem, Waker { task: 2 }).is_pending());

    // adding another permit must wake f1
    sem.add_permits(1);
    assert_eq!(sem.outstanding_permits(), 2);
    assert_eq!(sem.waiters(), 1);
    assert_eq!(sem.take_wakes(), vec![Waker { task: 1 }]);

    // f1 should resolve now
    let permit = complete(f1, &mut sem).ok().unwrap();
    assert_eq!(sem.waiters(), 1);
    assert_eq!(sem.outstanding_permits(), 2);

    // dropping the permit must pass one permit to the next waiter, wake it and
    // return the other permit back to the semaphore
    permit.drop(&mut sem);
    assert_eq!(sem.waiters(), 0);
    assert_eq!(sem.available_permits(), 1);
    assert_eq!(sem.outstanding_permits(), 1);
    assert_eq!(sem.take_wakes(), vec![Waker { task: 2 }]);

    let permit = complete(f2, &mut sem).ok().unwrap();
    assert_eq!(sem.available_permits(), 1);
    assert_eq!(sem.outstanding_permits(), 1);
    permit.drop(&mut sem);

    assert_eq!(sem.available_permits(), 2);
    assert_eq!(sem.outstanding_permits(), 0);
}

#[test]
fn cleanup() {
    let mut sem = Semaphore::new(0);

    let mut fut = sem.acquire();
    // poll once to enqueue the future as waiting
    assert!(fut.poll(&mut sem, TASK).is_pending());

    // dropping the future should clear up its queue entry immediately
    fut.drop(&mut sem);
    assert_eq!(sem.waiters(), 0);
    assert_eq!(sem.outstanding_permits(), 0);

    let mut fut = sem.acquire();
    // poll once to enqueue the future as waiting
    assert!(fut.poll(&mut sem, TASK).is_pending());

    // add 1 permit to wake future
    sem.add_permits(1);
    // ..and close semaphore
    assert_eq!(sem.close(), 0);

    assert!(complete(fut, &mut sem).is_err());
    assert_eq!(sem.waiters(), 0);
    assert_eq!(sem.available_permits(), 1);
    assert_eq!(sem.outstanding_permits(), 0);
}

#[test]
fn cleanup_after_wake() {
    let mut sem = Semaphore::new(0);
    let mut fut = sem.acquire();

    // poll once to enqueue the future as waiting
    assert!(fut.poll(&mut sem, TASK).is_pending());

    // adding a permit will wake the Acquire future instead of increasing the
    // amount of available permits
    sem.add_permits(1);
    assert_eq!(sem.outstanding_permits(), 1);
    // dropping the future should return the added permit instead of removing
    // the waker from the queue
    fut.drop(&mut sem);

    assert_eq!(sem.waiters(), 0);
    assert_eq!(sem.available_permits(), 1);
    assert_eq!(sem.outstanding_permits(), 0);
}

#[test]
fn close() {
    let mut sem = Semaphore::new(1);
    let fut = sem.acquire();
    let permit = complete(fut, &mut sem).ok().unwrap();
    assert_eq!(sem.outstanding_permits(), 1);

    let mut f1 = sem.acquire();
    let mut f2 = sem.acquire();
    // poll once to enqueue the futures as waiting
    assert!(f1.poll(&mut sem, Waker { task: 1 }).is_pending());
    assert!(f2.poll(&mut sem, Waker { task: 2 }).is_pending());

    assert_eq!(sem.waiters(), 2);
    assert_eq!(sem.close(), 2);
    assert_eq!(sem.waiters(), 0);
    assert_eq!(sem.take_wakes(), vec![Waker { task: 1 }, Waker { task: 2 }]);

    // closing the semaphore should have woken the future
    match f1.poll(&mut sem, Waker { task: 1 }) {
        Poll::Ready(Err(_)) => {}
        _ => panic!("acquire future should have resolved"),
    }

    // dropping the resolved future should have no effect
    f1.drop(&mut sem);
    assert_eq!(sem.available_permits(), 0);
    assert_eq!(sem.outstanding_permits(), 1);
    // f2 must resolve, even if not polled manually
    assert!(complete(f2, &mut sem).is_err());

    // dropping the permit must return even though the semaphore has been closed
    permit.drop(&mut sem);
    assert_eq!(sem.available_permits(), 1);
    assert_eq!(sem.outstanding_permits(), 0);

    // no further permits must be acquirable
    assert!(sem.try_acquire().is_err());
    let fut = sem.acquire();
    assert!(complete(fut, &mut sem).is_err());
}

#[test]
fn return_outstanding_permit_on_close() {
    let mut sem = Semaphore::new(1);
    let fut = sem.acquire();
    let permit = complete(fut, &mut sem).ok().unwrap();

    let mut fut = sem.acquire();
    assert!(fut.poll(&mut sem, TASK).is_pending());
    assert_eq!(sem.waiters(), 1);

    // dropping a permit will transfer it to the next waiter, waking it
    permit.drop(&mut sem);
    assert_eq!(sem.waiters(), 0);
    assert_eq!(sem.available_permits(), 0);
    assert_eq!(sem.outstanding_permits(), 1);

    // closing by itself will not return the outstanding permit
    sem.close();
    assert_eq!(sem.available_permits(), 0);

    // ... but awaiting the Acquire future should!
    assert!(complete(fut, &mut sem).is_err());
    assert_eq!(sem.available_permits(), 1);
}

#[test]
fn return_outstanding_permit_on_cancel() {
    let mut sem = Semaphore::new(0);

    let mut fut = sem.acquire();
    assert!(fut.poll(&mut sem, TASK).is_pending());
    assert_eq!(sem.waiters(), 1);

    sem.add_permits(1);
    assert_eq!(sem.waiters(), 0);

    // dropping the unresolved future must return the already transferred permit
    // ownership back to the semaphore
    fut.drop(&mut sem);

    assert_eq!(sem.waiters(), 0);
    assert_eq!(sem.available_permits(), 1);
}

/// Enqueues a waiter that is dropped again at the end.
fn acquire_and_forget(sem: &mut Semaphore) {
    let waiters = sem.waiters();
    let mut fut = sem.acquire();
    assert!(fut.poll(sem, TASK).is_pending());
    assert_eq!(sem.waiters(), waiters + 1);
    fut.drop(sem);
}

#[test]
fn forget_acquire_future() {
    let mut sem = Semaphore::new(0);
    acquire_and_forget(&mut sem);
    assert_eq!(sem.waiters(), 0);

    // trash previously used stack space
    let mut arr = [0u8; 1000];
    for v in &mut arr {
        *v = 255;
    }

    let mut f1 = sem.acquire();
    assert!(f1.poll(&mut sem, TASK).is_pending());
    let mut f2 = sem.acquire();
    assert!(f2.poll(&mut sem, TASK).is_pending());
    let mut f3 = sem.acquire();
    assert!(f3.poll(&mut sem, TASK).is_pending());

    assert_eq!(sem.waiters(), 3);
    assert_eq!(sem.available_permits(), 0);
    sem.add_permits(3);

    for mut fut in [f1, f2, f3] {
        let result = fut.poll(&mut sem, TASK);
        assert!(matches!(result, Poll::Ready(Ok(_))));
        if let Poll::Ready(Ok(permit)) = result {
            permit.drop(&mut sem);
        }
        fut.drop(&mut sem);
    }

    assert_eq!(sem.waiters(), 0);
    assert_eq!(sem.available_permits(), 3);
}

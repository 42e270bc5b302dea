use async_unsync::semaphore::{Acquire, Permit, Semaphore, TryAcquireError};
use async_unsync::{Poll, Waker};

fn task(task: u64) -> Waker {
    Waker { task }
}

/// Enqueues a waiter for `n` permits.
fn enqueue(sem: &mut Semaphore, n: usize, id: u64) -> Acquire {
    let mut fut = sem.acquire_many(n);
    assert!(fut.poll(sem, task(id)).is_pending());
    fut
}

/// Polls a waiter that must have its permits.
fn acquired(fut: &mut Acquire, sem: &mut Semaphore) -> Permit {
    match fut.poll(sem, task(99)) {
        Poll::Ready(Ok(permit)) => permit,
        _ => panic!("permits should have been acquired"),
    }
}

#[test]
fn a_new_semaphore_has_its_permits_available() {
    let sem = Semaphore::new(7);
    assert_eq!(sem.available_permits(), 7);
    assert_eq!(sem.outstanding_permits(), 0);
    assert_eq!(sem.waiters(), 0);
    assert!(!sem.is_closed());
}

#[test]
fn adding_no_permits_changes_nothing() {
    let mut sem = Semaphore::new(0);
    let fut = enqueue(&mut sem, 2, 1);
    sem.add_permits(0);
    assert_eq!(sem.waiters(), 1);
    assert_eq!(sem.available_permits(), 0);
    assert_eq!(sem.outstanding_permits(), 0);
    assert!(sem.take_wakes().is_empty());
    fut.drop(&mut sem);
}

#[test]
fn added_permits_are_neither_lost_nor_multiplied() {
    let mut sem = Semaphore::new(0);
    let mut first = enqueue(&mut sem, 5, 1);
    let second = enqueue(&mut sem, 4, 2);

    // the first waiter collects single permits
    sem.add_permits(1);
    assert_eq!(sem.outstanding_permits(), 1);
    assert_eq!(sem.waiters(), 2);
    sem.add_permits(1);
    assert_eq!(sem.outstanding_permits(), 2);
    assert_eq!(sem.waiters(), 2);
    assert!(sem.take_wakes().is_empty());

    // three more complete the first waiter, two are left for the second one
    sem.add_permits(5);
    assert_eq!(sem.outstanding_permits(), 7);
    assert_eq!(sem.available_permits(), 0);
    assert_eq!(sem.waiters(), 1);
    assert_eq!(sem.take_wakes(), vec![task(1)]);

    let permit = acquired(&mut first, &mut sem);
    assert_eq!(permit.count(), 5);
    first.drop(&mut sem);
    permit.drop(&mut sem);
    assert_eq!(sem.outstanding_permits(), 4);
    assert_eq!(sem.available_permits(), 3);
    assert_eq!(sem.take_wakes(), vec![task(2)]);
    second.drop(&mut sem);
    assert_eq!(sem.available_permits(), 7);
    assert_eq!(sem.outstanding_permits(), 0);
}

#[test]
fn permits_are_added_in_steps_or_at_once() {
    let mut steps = Semaphore::new(0);
    let mut once = Semaphore::new(0);
    let mut pending = Vec::new();
    for id in 0..4 {
        pending.push((enqueue(&mut steps, 3, id), enqueue(&mut once, 3, id)));
    }
    for n in [1, 4, 2] {
        steps.add_permits(n);
    }
    once.add_permits(7);

    assert_eq!(steps.waiters(), 2);
    assert_eq!(once.waiters(), 2);
    assert_eq!(steps.outstanding_permits(), once.outstanding_permits());
    assert_eq!(steps.available_permits(), once.available_permits());
    assert_eq!(steps.take_wakes(), vec![task(0), task(1)]);
    assert_eq!(once.take_wakes(), vec![task(0), task(1)]);
}

#[test]
fn waiters_are_served_in_order() {
    let mut sem = Semaphore::new(0);
    let mut first = enqueue(&mut sem, 3, 1);
    let mut second = enqueue(&mut sem, 1, 2);
    let mut third = enqueue(&mut sem, 1, 3);

    // one permit would be enough for the second waiter, but the first is first
    sem.add_permits(1);
    assert!(second.poll(&mut sem, task(2)).is_pending());
    assert!(third.poll(&mut sem, task(3)).is_pending());
    sem.add_permits(3);
    assert_eq!(sem.take_wakes(), vec![task(1), task(2)]);
    assert_eq!(acquired(&mut first, &mut sem).count(), 3);
    assert_eq!(acquired(&mut second, &mut sem).count(), 1);
    assert!(third.poll(&mut sem, task(3)).is_pending());
}

#[test]
fn enough_permits_complete_all_waiters() {
    let mut sem = Semaphore::new(0);
    for id in 1..=3 {
        let _ = enqueue(&mut sem, id as usize, id);
    }
    sem.add_permits(6);
    assert_eq!(sem.waiters(), 0);
    assert_eq!(sem.available_permits(), 0);
    assert_eq!(sem.outstanding_permits(), 6);
    assert_eq!(sem.take_wakes(), vec![task(1), task(2), task(3)]);
}

#[test]
fn available_permits_saturate() {
    let mut sem = Semaphore::new(1);
    sem.add_permits(usize::MAX);
    assert_eq!(sem.available_permits(), usize::MAX);
    sem.remove_permits(usize::MAX - 2);
    assert_eq!(sem.available_permits(), 2);
    sem.remove_permits(3);
    assert_eq!(sem.available_permits(), 0);
}

#[test]
fn forgotten_permits_can_be_returned() {
    let mut sem = Semaphore::new(3);
    let permit = sem.try_acquire_many(2).ok().unwrap();
    permit.forget(&mut sem);
    assert_eq!(sem.available_permits(), 1);
    assert_eq!(sem.outstanding_permits(), 0);
    sem.return_permits(2);
    assert_eq!(sem.available_permits(), 3);
    assert_eq!(sem.outstanding_permits(), 0);
}

#[test]
fn returned_permits_go_to_waiters() {
    let mut sem = Semaphore::new(2);
    let permit = sem.try_acquire_many(2).ok().unwrap();
    let fut = enqueue(&mut sem, 1, 5);
    permit.drop(&mut sem);
    assert_eq!(sem.take_wakes(), vec![task(5)]);
    assert_eq!(sem.available_permits(), 1);
    assert_eq!(sem.outstanding_permits(), 1);
    fut.drop(&mut sem);
    assert_eq!(sem.available_permits(), 2);
    assert_eq!(sem.outstanding_permits(), 0);
}

#[test]
fn a_waiter_takes_what_is_available() {
    let mut sem = Semaphore::new(2);
    let fut = enqueue(&mut sem, 3, 1);
    assert_eq!(sem.available_permits(), 0);
    assert_eq!(sem.outstanding_permits(), 2);
    assert!(fut.is_accounted(&sem));
    // dropping it leaves no trace
    fut.drop(&mut sem);
    assert_eq!(sem.available_permits(), 2);
    assert_eq!(sem.outstanding_permits(), 0);
    assert_eq!(sem.waiters(), 0);
}

#[test]
fn an_unpolled_acquisition_has_no_effect() {
    let mut sem = Semaphore::new(2);
    let fut = sem.acquire_many(2);
    assert_eq!(sem.available_permits(), 2);
    assert_eq!(sem.waiters(), 0);
    fut.drop(&mut sem);
    assert_eq!(sem.available_permits(), 2);
    assert_eq!(sem.outstanding_permits(), 0);
}

#[test]
fn acquiring_no_permits_always_succeeds() {
    let mut sem = Semaphore::new(0);
    assert_eq!(sem.try_acquire_many(0).ok().unwrap().count(), 0);
    let mut fut = sem.acquire_many(0);
    assert_eq!(acquired(&mut fut, &mut sem).count(), 0);
    fut.drop(&mut sem);
    assert_eq!(sem.waiters(), 0);
}

#[test]
fn polling_again_keeps_the_place_and_the_task() {
    let mut sem = Semaphore::new(0);
    let mut first = enqueue(&mut sem, 1, 1);
    let second = enqueue(&mut sem, 1, 2);
    assert!(first.poll(&mut sem, task(7)).is_pending());
    sem.add_permits(1);
    assert_eq!(sem.take_wakes(), vec![task(1)]);
    assert_eq!(sem.waiters(), 1);
    second.drop(&mut sem);
    first.drop(&mut sem);
}

#[test]
fn waiters_leave_from_anywhere_in_the_queue() {
    let mut sem = Semaphore::new(0);
    let mut pending: Vec<Option<Acquire>> =
        (1..=5).map(|id| Some(enqueue(&mut sem, 1, id))).collect();
    for i in [2, 0, 4] {
        pending[i].take().unwrap().drop(&mut sem);
    }
    assert_eq!(sem.waiters(), 2);
    let late = enqueue(&mut sem, 1, 6);
    sem.add_permits(3);
    assert_eq!(sem.take_wakes(), vec![task(2), task(4), task(6)]);
    late.drop(&mut sem);
}

#[test]
fn a_closed_semaphore_stays_closed() {
    let mut sem = Semaphore::new(1);
    assert!(!sem.is_closed());
    assert_eq!(sem.close(), 0);
    assert!(sem.is_closed());
    assert_eq!(sem.close(), 0);
    sem.add_permits(3);
    assert!(sem.is_closed());
    assert_eq!(sem.available_permits(), 4);
    assert!(matches!(sem.try_acquire(), Err(TryAcquireError::Closed)));
    assert!(matches!(sem.try_acquire_many(0), Err(TryAcquireError::Closed)));
    let mut fut = sem.acquire();
    assert!(matches!(fut.poll(&mut sem, task(1)), Poll::Ready(Err(_))));
    fut.drop(&mut sem);
    assert_eq!(sem.available_permits(), 4);
}

#[test]
fn collected_permits_come_back_after_closing() {
    let mut sem = Semaphore::new(2);
    let mut fut = enqueue(&mut sem, 3, 1);
    assert_eq!(sem.close(), 1);
    assert_eq!(sem.take_wakes(), vec![task(1)]);
    assert!(matches!(fut.poll(&mut sem, task(1)), Poll::Ready(Err(_))));
    assert_eq!(sem.available_permits(), 0);
    fut.drop(&mut sem);
    assert_eq!(sem.available_permits(), 2);
    assert_eq!(sem.outstanding_permits(), 0);
}

#[test]
fn a_refusal_names_its_reason() {
    let mut sem = Semaphore::new(1);
    assert!(matches!(sem.try_acquire_many(2), Err(TryAcquireError::NoPermits)));
    assert_eq!(sem.available_permits(), 1);
    assert_eq!(TryAcquireError::NoPermits.message(), "no permits available");
    assert_eq!(TryAcquireError::Closed.message(), "semaphore closed");
    sem.close();
    let mut fut = sem.acquire();
    match fut.poll(&mut sem, task(1)) {
        Poll::Ready(Err(error)) => assert_eq!(error.message(), "semaphore closed"),
        _ => panic!("the semaphore is closed"),
    }
}

#[test]
fn returned_permits_leave_the_handed_out_ones_alone() {
    let mut sem = Semaphore::new(2);
    let p1 = sem.try_acquire().ok().unwrap();
    let p2 = sem.try_acquire().ok().unwrap();
    p1.forget(&mut sem);
    assert_eq!(sem.available_permits(), 0);
    assert_eq!(sem.outstanding_permits(), 1);
    sem.return_permits(1);
    assert_eq!(sem.available_permits(), 1);
    assert_eq!(sem.outstanding_permits(), 1);
    p2.drop(&mut sem);
    assert_eq!(sem.available_permits(), 2);
    assert_eq!(sem.outstanding_permits(), 0);
}

#[test]
fn returned_permits_do_not_take_from_woken_waiters() {
    let mut sem = Semaphore::new(1);
    sem.try_acquire().ok().unwrap().forget(&mut sem);
    let mut first = enqueue(&mut sem, 1, 1);
    let mut second = enqueue(&mut sem, 1, 2);
    sem.add_permits(1);
    assert_eq!(sem.outstanding_permits(), 1);
    sem.return_permits(1);
    assert_eq!(sem.outstanding_permits(), 2);
    assert_eq!(sem.take_wakes(), vec![task(1), task(2)]);
    assert!(first.is_accounted(&sem));
    assert!(second.is_accounted(&sem));
    for fut in [&mut first, &mut second] {
        acquired(fut, &mut sem).drop(&mut sem);
    }
    assert_eq!(sem.available_permits(), 2);
    assert_eq!(sem.outstanding_permits(), 0);
    first.drop(&mut sem);
    second.drop(&mut sem);
}

#[test]
fn more_permits_than_can_be_counted_are_noticed() {
    let mut sem = Semaphore::new(usize::MAX);
    let all = sem.try_acquire_many(usize::MAX).ok().unwrap();
    sem.add_permits(1);
    let fut = enqueue(&mut sem, 2, 1);
    assert_eq!(sem.outstanding_permits(), usize::MAX);
    assert!(fut.is_accounted(&sem));
    all.drop(&mut sem);
    assert_eq!(sem.outstanding_permits(), 1);
    assert!(!fut.is_accounted(&sem));
}

#[test]
fn permits_are_removed_only_if_they_are_available() {
    let mut sem = Semaphore::new(2);
    assert!(matches!(sem.try_remove_permits(3), Err(TryAcquireError::NoPermits)));
    assert_eq!(sem.available_permits(), 2);
    assert!(sem.try_remove_permits(2).is_ok());
    assert_eq!(sem.available_permits(), 0);
    assert_eq!(sem.outstanding_permits(), 0);
    sem.close();
    assert!(matches!(sem.try_remove_permits(0), Err(TryAcquireError::Closed)));
}

#[test]
fn a_detached_acquisition_keeps_its_permits() {
    let mut sem = Semaphore::new(2);
    let fut = enqueue(&mut sem, 3, 1);
    assert_eq!(sem.outstanding_permits(), 2);
    assert_eq!(fut.detach(&mut sem), 2);
    assert_eq!(sem.waiters(), 0);
    assert_eq!(sem.outstanding_permits(), 0);
    assert_eq!(sem.available_permits(), 0);
}

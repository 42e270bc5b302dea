use async_unsync::bounded::{
    channel, Channel, Permit, ReceiverRef, ReserveFuture, SendFuture, SenderRef,
};
use async_unsync::{Poll, SendError, Waker};
use std::collections::VecDeque;

const TASK: Waker = Waker { task: 1 };

/// Sends a value that must not have to wait.
fn send(tx: &SenderRef<i32>, chan: &mut Channel<i32>, elem: i32) -> Result<(), SendError<i32>> {
    let fut = tx.send(chan, elem);
    await_send(fut, chan)
}

/// Resolves a pending send that must be ready.
fn await_send(mut fut: SendFuture<i32>, chan: &mut Channel<i32>) -> Result<(), SendError<i32>> {
    match fut.poll(chan, TASK) {
        Poll::Ready(result) => {
            fut.drop(chan);
            result
        }
        Poll::Pending => panic!("should have resolved"),
    }
}

/// Reserves capacity that must be available.
fn reserve(tx: &SenderRef<i32>, chan: &mut Channel<i32>) -> Result<Permit<i32>, SendError<()>> {
    let fut = tx.reserve(chan);
    await_reserve(fut, chan)
}

/// Resolves a pending reservation that must be ready.
fn await_reserve(
    mut fut: ReserveFuture<i32>,
    chan: &mut Channel<i32>,
) -> Result<Permit<i32>, SendError<()>> {
    match fut.poll(chan, TASK) {
        Poll::Ready(result) => {
            fut.drop(chan);
            result
        }
        Poll::Pending => panic!("should have resolved"),
    }
}

/// Receives an element that must already be there.
fn recv(rx: &mut ReceiverRef<i32>, chan: &mut Channel<i32>) -> Option<i32> {
    match rx.poll_recv(chan, TASK) {
        Poll::Ready(elem) => elem,
        Poll::Pending => panic!("should have resolved"),
    }
}

#[test]
fn bounded_recv_split() {
    let mut chan = channel::<i32>(4);
    let (tx, mut rx) = chan.split();
    assert_eq!(tx.capacity(&chan), 4);

    for i in 0..4 {
        assert!(send(&tx, &mut chan, i).is_ok());
        assert_eq!(tx.capacity(&chan), 4 - i as usize - 1);
    }

    assert_eq!(recv(&mut rx, &mut chan), Some(0));
    assert_eq!(tx.capacity(&chan), 1);
    assert_eq!(recv(&mut rx, &mut chan), Some(1));
    assert_eq!(tx.capacity(&chan), 2);
    assert_eq!(recv(&mut rx, &mut chan), Some(2));
    assert_eq!(tx.capacity(&chan), 3);
    assert_eq!(recv(&mut rx, &mut chan), Some(3));
    assert_eq!(tx.capacity(&chan), 4);

    assert!(rx.try_recv(&mut chan).is_err());
    rx.drop(&mut chan);

    assert!(send(&tx, &mut chan, 0).is_err());
}

#[test]
fn poll_often() {
    let mut chan = channel::<i32>(4);
    let (tx, mut rx) = chan.split();

    for i in 0..4 {
        assert!(send(&tx, &mut chan, i).is_ok());
    }

    assert_eq!(recv(&mut rx, &mut chan), Some(0));
    assert_eq!(recv(&mut rx, &mut chan), Some(1));
    assert_eq!(recv(&mut rx, &mut chan), Some(2));
    assert_eq!(recv(&mut rx, &mut chan), Some(3));
}

#[test]
fn cancel_recv() {
    let mut chan = channel::<i32>(1);
    let (tx, mut rx) = chan.split();
    assert_eq!(tx.capacity(&chan), 1);

    assert!(rx.poll_recv(&mut chan, TASK).is_pending());

    // allow the receiving task to resolve
    send(&tx, &mut chan, 0).unwrap();
    assert_eq!(tx.capacity(&chan), 0);
    assert_eq!(chan.take_wakes(), vec![TASK]);
    // ..but stop receiving instead
    assert_eq!(tx.capacity(&chan), 0);
    assert_eq!(recv(&mut rx, &mut chan), Some(0));
}

#[test]
fn cancel_send() {
    let mut chan = channel::<i32>(1);
    let (tx, mut rx) = chan.split();
    assert_eq!(tx.capacity(&chan), 1);

    // fill the queue to capacity
    send(&tx, &mut chan, 0).unwrap();
    assert_eq!(tx.capacity(&chan), 0);

    let mut s1 = tx.send(&mut chan, 1);
    let mut s2 = tx.send(&mut chan, 2);
    assert!(s1.poll(&mut chan, TASK).is_pending());
    assert!(s2.poll(&mut chan, TASK).is_pending());

    // receive the value in the channel, then drop the s1 future
    assert_eq!(recv(&mut rx, &mut chan), Some(0));
    s1.drop(&mut chan);
    assert_eq!(tx.capacity(&chan), 0);
    assert!(s2.poll(&mut chan, TASK).is_ready());
    assert_eq!(tx.capacity(&chan), 0);

    assert_eq!(recv(&mut rx, &mut chan), Some(2));
    assert_eq!(tx.capacity(&chan), 1);
    send(&tx, &mut chan, 1).unwrap();
    assert_eq!(recv(&mut rx, &mut chan), Some(1));
}

#[test]
fn poll_out_of_order() {
    let mut chan = channel::<i32>(1);
    let (tx, mut rx) = chan.split();
    assert_eq!(tx.capacity(&chan), 1);

    // fill the queue to capacity
    send(&tx, &mut chan, 0).unwrap();
    assert_eq!(tx.capacity(&chan), 0);

    let mut s1 = tx.send(&mut chan, 1);
    let mut s2 = tx.send(&mut chan, 2);

    // poll both send futures once in order to register them, both should return
    // pending
    assert!(s1.poll(&mut chan, Waker { task: 1 }).is_pending());
    assert!(s2.poll(&mut chan, Waker { task: 2 }).is_pending());
    assert_eq!(tx.capacity(&chan), 0);

    // make room in the queue
    assert_eq!(recv(&mut rx, &mut chan), Some(0));
    assert_eq!(tx.capacity(&chan), 0);
    assert_eq!(chan.take_wakes(), vec![Waker { task: 1 }]);

    // polling the second send first should still return pending, even though
    // there is room in the queue, because the order has been established when
    // the futures were first registered
    assert!(s2.poll(&mut chan, Waker { task: 2 }).is_pending());
    assert_eq!(s1.poll(&mut chan, Waker { task: 1 }), Poll::Ready(Ok(())));
    assert!(s2.poll(&mut chan, Waker { task: 2 }).is_pending());

    // make room in the queue
    assert_eq!(recv(&mut rx, &mut chan), Some(1));
    assert!(await_send(s2, &mut chan).is_ok());
    assert_eq!(recv(&mut rx, &mut chan), Some(2));
}

#[test]
fn poll_out_of_order_drop() {
    let mut chan = channel::<i32>(1);
    let (tx, mut rx) = chan.split();

    // fill the queue to capacity
    send(&tx, &mut chan, 0).unwrap();

    let mut s1 = tx.send(&mut chan, 1);
    let mut s2 = tx.send(&mut chan, 2);

    // poll both send futures once in order to register them, both should return
    // pending
    assert!(s1.poll(&mut chan, TASK).is_pending());
    assert!(s2.poll(&mut chan, TASK).is_pending());

    // make room in the queue by recving once
    assert_eq!(recv(&mut rx, &mut chan), Some(0));
    // drop the first send before polling again, the second one should still be
    // able to proceed
    s1.drop(&mut chan);

    assert_eq!(s2.poll(&mut chan, TASK), Poll::Ready(Ok(())));

    assert_eq!(rx.try_recv(&mut chan), Ok(2));
}

#[test]
fn full() {
    let mut chan = channel::<i32>(1);

    assert!(chan.try_send(0).is_ok());
    assert!(chan.try_send(1).is_err());

    assert_eq!(chan.try_recv(), Ok(0));
    assert!(chan.try_send(1).is_ok());
    assert_eq!(chan.try_recv(), Ok(1));
}

#[test]
fn reserve_and_close() {
    let mut chan = channel::<i32>(1);
    let (tx, mut rx) = chan.split();

    let permit = reserve(&tx, &mut chan).ok().unwrap();
    assert_eq!(tx.capacity(&chan), 0);
    assert_eq!(tx.max_capacity(&chan), 1);

    rx.close(&mut chan);
    assert!(reserve(&tx, &mut chan).is_err());

    assert!(rx.poll_recv(&mut chan, TASK).is_pending());

    assert!(send(&tx, &mut chan, 1).is_err());
    permit.send(&mut chan, 1);
    assert_eq!(tx.capacity(&chan), 0);

    assert_eq!(recv(&mut rx, &mut chan), Some(1));
    assert_eq!(tx.capacity(&chan), 1);
    assert_eq!(recv(&mut rx, &mut chan), None);
}

#[test]
fn reserve_and_cancel() {
    let mut chan = channel::<i32>(1);
    let (tx, mut rx) = chan.split();

    let permit = reserve(&tx, &mut chan).ok().unwrap();
    assert_eq!(tx.capacity(&chan), 0);
    assert_eq!(tx.max_capacity(&chan), 1);

    let mut fut = tx.reserve(&mut chan);
    assert!(fut.poll(&mut chan, TASK).is_pending());

    permit.drop(&mut chan);
    let permit = await_reserve(fut, &mut chan).ok().unwrap();

    rx.close(&mut chan);
    assert!(reserve(&tx, &mut chan).is_err());

    assert!(send(&tx, &mut chan, 1).is_err());
    permit.send(&mut chan, 1);

    assert_eq!(recv(&mut rx, &mut chan), Some(1));
    assert_eq!(recv(&mut rx, &mut chan), None);
}

#[test]
fn reserve_and_drop_permit() {
    let mut chan = channel::<i32>(1);
    let (tx, mut rx) = chan.split();

    let permit = reserve(&tx, &mut chan).ok().unwrap();
    assert_eq!(tx.capacity(&chan), 0);
    assert_eq!(tx.max_capacity(&chan), 1);

    rx.close(&mut chan);
    assert!(rx.poll_recv(&mut chan, TASK).is_pending());

    permit.drop(&mut chan);
    assert_eq!(tx.capacity(&chan), 1);
    assert_eq!(recv(&mut rx, &mut chan), None);
}

#[test]
fn diverting_len_and_capacity() {
    let mut chan = channel(5);
    let (tx, mut rx) = chan.split();

    send(&tx, &mut chan, 1).unwrap();
    let permit1 = reserve(&tx, &mut chan).ok().unwrap();
    assert_eq!(tx.len(&chan) + tx.capacity(&chan), 4);

    let permit2 = reserve(&tx, &mut chan).ok().unwrap();
    assert_eq!(tx.len(&chan) + tx.capacity(&chan), 3);

    permit1.send(&mut chan, 2);
    permit2.send(&mut chan, 3);

    // now it is equal again
    assert_eq!(tx.len(&chan) + tx.capacity(&chan), 5);

    assert_eq!(recv(&mut rx, &mut chan), Some(1));
    assert_eq!(recv(&mut rx, &mut chan), Some(2));
    assert_eq!(recv(&mut rx, &mut chan), Some(3));
}

#[test]
fn bounded_split_after_close() {
    let mut chan = channel::<i32>(1);
    chan.close();

    let (tx, rx) = chan.split();
    assert!(tx.is_closed(&chan));
    assert!(rx.is_closed(&chan));
}

#[test]
fn from_iter() {
    let mut chan = Channel::from_iter(3, VecDeque::from([0, 1, 2, 3]));
    assert_eq!(chan.poll_recv(TASK), Poll::Ready(Some(0)));
    assert_eq!(chan.poll_recv(TASK), Poll::Ready(Some(1)));
    assert_eq!(chan.poll_recv(TASK), Poll::Ready(Some(2)));
    assert_eq!(chan.poll_recv(TASK), Poll::Ready(Some(3)));
    assert_eq!(chan.capacity(), 3);
}

#[test]
fn send_vs_reserve() {
    let mut chan = channel::<i32>(1);
    let (tx, mut rx) = chan.split();

    assert!(send(&tx, &mut chan, -1).is_ok());

    let mut f1 = tx.send(&mut chan, -2);
    let mut f2 = tx.send(&mut chan, -3);
    let mut f3 = tx.reserve(&mut chan);

    assert!(f1.poll(&mut chan, TASK).is_pending());
    assert!(f2.poll(&mut chan, TASK).is_pending());
    assert!(f3.poll(&mut chan, TASK).is_pending());

    assert_eq!(recv(&mut rx, &mut chan), Some(-1));
    assert_eq!(tx.capacity(&chan), 0, "capacity goes to f1");

    assert!(await_send(f1, &mut chan).is_ok());
    assert_eq!(tx.capacity(&chan), 0);

    assert_eq!(recv(&mut rx, &mut chan), Some(-2));
    assert_eq!(tx.capacity(&chan), 0, "capacity goes to f3");

    f2.drop(&mut chan);
    assert_eq!(tx.capacity(&chan), 0, "capacity goes to f3");

    await_reserve(f3, &mut chan).ok().unwrap().send(&mut chan, -4);
    assert_eq!(tx.capacity(&chan), 0);

    assert_eq!(recv(&mut rx, &mut chan), Some(-4));
    assert_eq!(tx.capacity(&chan), 1);
}

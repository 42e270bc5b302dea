use async_unsync::unbounded::{channel, UnboundedChannel, UnboundedReceiverRef};
use async_unsync::{Poll, Waker};

const TASK: Waker = Waker { task: 1 };

/// Receives an element that must already be there.
fn recv<T>(chan: &mut UnboundedChannel<T>) -> Option<T> {
    match chan.poll_recv(TASK) {
        Poll::Ready(elem) => elem,
        Poll::Pending => panic!("should have resolved"),
    }
}

/// Receives an element through a handle that must already be there.
fn recv_from<T>(rx: &mut UnboundedReceiverRef<T>, chan: &mut UnboundedChannel<T>) -> Option<T> {
    match rx.poll_recv(chan, TASK) {
        Poll::Ready(elem) => elem,
        Poll::Pending => panic!("should have resolved"),
    }
}

#[test]
fn try_recv() {
    let mut chan = channel::<i32>();
    assert!(chan.try_recv().is_err());
    chan.send(-1).unwrap();
    assert_eq!(chan.try_recv(), Ok(-1));
}

#[test]
fn try_recv_split() {
    let mut chan = channel::<i32>();
    let (tx, mut rx) = chan.split();

    assert!(rx.try_recv(&mut chan).is_err());
    tx.send(&mut chan, -1).unwrap();
    assert_eq!(rx.try_recv(&mut chan), Ok(-1));
}

#[test]
fn try_recv_closed() {
    let mut chan = channel::<i32>();

    assert!(chan.try_recv().is_err());
    chan.send(-1).unwrap();
    chan.close();

    assert_eq!(chan.try_recv(), Ok(-1));
    assert!(chan.try_recv().unwrap_err().is_disconnected());
}

#[test]
fn try_recv_closed_split() {
    let mut chan = channel::<i32>();
    let (tx, mut rx) = chan.split();

    assert!(rx.try_recv(&mut chan).is_err());
    tx.send(&mut chan, -1).unwrap();
    tx.drop(&mut chan);

    assert_eq!(rx.try_recv(&mut chan), Ok(-1));
    assert!(rx.try_recv(&mut chan).unwrap_err().is_disconnected());
}

#[test]
fn send_split() {
    let mut chan = channel::<i32>();
    let (tx, mut rx) = chan.split();

    for i in 0..4 {
        let _ = tx.send(&mut chan, i);
    }

    assert_eq!(rx.try_recv(&mut chan), Ok(0));
    assert_eq!(rx.try_recv(&mut chan), Ok(1));
    assert_eq!(rx.try_recv(&mut chan), Ok(2));
    assert_eq!(rx.try_recv(&mut chan), Ok(3));
}

#[test]
fn send_closed() {
    let mut chan = channel::<i32>();
    chan.close();
    assert!(chan.send(-1).is_err());
}

#[test]
fn send_closed_split() {
    let mut chan = channel::<i32>();
    let (tx, rx) = chan.split();
    rx.drop(&mut chan);

    assert!(tx.send(&mut chan, -1).is_err());
}

#[test]
fn unbounded_recv() {
    let mut chan = channel::<i32>();

    chan.send(-1).unwrap();
    assert_eq!(recv(&mut chan), Some(-1));
    chan.send(-2).unwrap();
    assert_eq!(recv(&mut chan), Some(-2));
    chan.close();
    chan.send(-3).unwrap_err();
}

#[test]
fn unbounded_recv_split() {
    let mut chan = channel::<i32>();
    let (tx, mut rx) = chan.split();

    tx.send(&mut chan, -1).unwrap();
    assert_eq!(recv_from(&mut rx, &mut chan), Some(-1));
    tx.send(&mut chan, -2).unwrap();
    assert_eq!(recv_from(&mut rx, &mut chan), Some(-2));
    rx.drop(&mut chan);
    tx.send(&mut chan, -3).unwrap_err();
}

#[test]
fn recv_closed_split() {
    let mut chan = channel::<i32>();
    let (tx, mut rx) = chan.split();

    tx.send(&mut chan, -1).unwrap();
    tx.send(&mut chan, -2).unwrap();
    tx.send(&mut chan, -3).unwrap();

    rx.close(&mut chan);
    assert!(tx.send(&mut chan, -4).is_err());

    assert_eq!(recv_from(&mut rx, &mut chan), Some(-1));
    assert_eq!(recv_from(&mut rx, &mut chan), Some(-2));
    assert_eq!(recv_from(&mut rx, &mut chan), Some(-3));
    assert_eq!(recv_from(&mut rx, &mut chan), None);

    assert!(tx.send(&mut chan, -4).is_err());
}

#[test]
fn poll_recv() {
    let mut chan = channel::<i32>();
    assert!(chan.poll_recv(TASK).is_pending());
    assert!(chan.poll_recv(TASK).is_pending());

    chan.send(1).unwrap();
    assert_eq!(chan.take_wakes(), vec![TASK]);
    assert_eq!(chan.poll_recv(TASK), Poll::Ready(Some(1)));
}

#[test]
fn multiple_recv() {
    let mut chan = channel::<i32>();
    // first poll registers the first task to be woken
    assert!(chan.poll_recv(Waker { task: 1 }).is_pending());
    // second poll overwrites the first waker
    assert!(chan.poll_recv(Waker { task: 2 }).is_pending());

    // after sending a value, the second task can resolve
    chan.send(1).unwrap();
    assert_eq!(chan.take_wakes(), vec![Waker { task: 2 }]);
    assert_eq!(chan.poll_recv(Waker { task: 2 }), Poll::Ready(Some(1)));

    chan.send(2).unwrap();
    assert_eq!(recv(&mut chan), Some(2))
}

#[test]
fn use_after_split() {
    let mut chan = channel::<i32>();
    {
        let (tx, mut rx) = chan.split();
        tx.send(&mut chan, 1).unwrap();
        tx.send(&mut chan, 2).unwrap();
        assert_eq!(recv_from(&mut rx, &mut chan), Some(1));
        rx.close(&mut chan);
        rx.drop(&mut chan);
        tx.drop(&mut chan);
    }

    assert!(chan.is_closed());
    assert_eq!(recv(&mut chan), Some(2));
    assert_eq!(recv(&mut chan), None);
}

#[test]
fn unbounded_split_after_close() {
    let mut chan = channel::<i32>();
    chan.close();

    let (tx, rx) = chan.split();
    assert!(tx.is_closed(&chan));
    assert!(rx.is_closed(&chan));
}

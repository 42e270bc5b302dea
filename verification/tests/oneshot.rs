use async_unsync::oneshot::{channel, RecvError};
use async_unsync::{Poll, SendError, TryRecvError, Waker};

const TASK: Waker = Waker { task: 1 };

#[test]
fn oneshot_recv() {
    let mut chan = channel::<i32>();
    let (tx, mut rx) = chan.split();

    tx.send(&mut chan, -1).unwrap();
    assert_eq!(rx.poll(&mut chan, TASK), Poll::Ready(Ok(-1)));
}

#[test]
fn split_twice() {
    let mut chan = channel::<()>();
    let (tx, mut rx) = chan.split();

    tx.send(&mut chan, ()).unwrap();
    assert_eq!(rx.poll(&mut chan, TASK), Poll::Ready(Ok(())));
    rx.drop(&mut chan);

    let (tx, mut rx) = chan.split();
    assert!(tx.send(&mut chan, ()).is_err());
    assert_eq!(rx.poll(&mut chan, TASK), Poll::Ready(Err(RecvError)));
}

#[test]
fn wake_on_close() {
    let mut chan = channel::<i32>();
    let (tx, mut rx) = chan.split();

    // poll once: pending
    assert!(rx.poll(&mut chan, TASK).is_pending());

    // drop tx & close channel
    tx.drop(&mut chan);

    // receiver should return ready + error
    assert_eq!(rx.poll(&mut chan, TASK), Poll::Ready(Err(RecvError)));
}

#[test]
fn a_value_is_received_once() {
    let (tx, mut rx, mut chan) = channel().into_split();
    assert_eq!(rx.try_recv(&mut chan), Err(TryRecvError::Empty));
    assert_eq!(chan.value(), None);
    assert_eq!(tx.send(&mut chan, 'x'), Ok(()));
    assert_eq!(chan.value(), Some(&'x'));
    assert_eq!(rx.try_recv(&mut chan), Ok('x'));
    assert_eq!(rx.try_recv(&mut chan), Err(TryRecvError::Disconnected));
    assert!(rx.is_closed(&chan));
}

#[test]
fn a_value_wakes_the_receiver() {
    let (tx, mut rx, mut chan) = channel().into_split();
    assert!(rx.poll(&mut chan, TASK).is_pending());
    assert!(chan.take_wakes().is_empty());
    tx.send(&mut chan, 1).unwrap();
    assert_eq!(chan.take_wakes(), vec![TASK]);
    assert_eq!(rx.poll(&mut chan, TASK), Poll::Ready(Ok(1)));
}

#[test]
fn closing_wakes_the_sender_and_fails_the_send() {
    let mut chan = channel();
    let (mut tx, mut rx) = chan.split();
    assert!(!tx.is_closed(&chan));
    assert!(tx.poll_closed(&mut chan, Waker { task: 2 }).is_pending());
    rx.close(&mut chan);
    assert_eq!(chan.take_wakes(), vec![Waker { task: 2 }]);
    rx.close(&mut chan);
    assert!(chan.take_wakes().is_empty());
    assert!(tx.is_closed(&chan));
    assert!(rx.is_closed(&chan));
    assert_eq!(tx.poll_closed(&mut chan, Waker { task: 2 }), Poll::Ready(()));
    assert_eq!(tx.send(&mut chan, 1), Err(SendError(1)));
    assert_eq!(rx.try_recv(&mut chan), Err(TryRecvError::Disconnected));
}

#[test]
fn dropping_the_receiver_closes_the_channel() {
    let (mut tx, rx, mut chan) = channel::<u8>().into_split();
    assert!(tx.poll_closed(&mut chan, TASK).is_pending());
    rx.drop(&mut chan);
    assert_eq!(chan.take_wakes(), vec![TASK]);
    assert!(tx.poll_closed(&mut chan, TASK).is_ready());
    assert!(tx.is_closed(&chan));
    tx.drop(&mut chan);
}

#[test]
fn a_value_sent_before_closing_is_received() {
    let mut chan = channel();
    let (tx, mut rx) = chan.split();
    tx.send(&mut chan, 1).unwrap();
    rx.close(&mut chan);
    assert_eq!(rx.try_recv(&mut chan), Ok(1));
}

use async_unsync::bounded::{self, Channel};
use async_unsync::semaphore::TryAcquireError;
use async_unsync::unbounded::{self, UnboundedChannel};
use async_unsync::{Poll, SendError, TryRecvError, TrySendError, Waker};
use std::collections::VecDeque;

fn task(task: u64) -> Waker {
    Waker { task }
}

#[test]
fn elements_come_out_in_the_order_they_went_in() {
    let mut chan = UnboundedChannel::from_iter(VecDeque::from([1, 2]));
    let mut received = Vec::new();
    for elem in 3..=20 {
        chan.send(elem).unwrap();
        if elem % 3 == 0 {
            received.push(chan.try_recv().unwrap());
            received.push(chan.try_recv().unwrap());
        }
    }
    received.extend(chan.into_deque());
    assert_eq!(received, (1..=20).collect::<Vec<i32>>());
}

#[test]
fn a_channel_reports_its_length() {
    let mut chan = unbounded::channel_from_iter(VecDeque::from(['a', 'b']));
    assert_eq!(chan.len(), 2);
    assert!(!chan.is_empty());
    let (tx, mut rx) = chan.split();
    assert_eq!(tx.len(&chan), 2);
    assert_eq!(rx.len(&chan), 2);
    assert!(!tx.is_empty(&chan));
    assert_eq!(rx.try_recv(&mut chan), Ok('a'));
    assert_eq!(rx.try_recv(&mut chan), Ok('b'));
    assert!(tx.is_empty(&chan));
    assert!(rx.is_empty(&chan));
    assert_eq!(rx.try_recv(&mut chan), Err(TryRecvError::Empty));
}

#[test]
fn queued_elements_outlive_the_handles() {
    let mut chan = unbounded::channel();
    let (tx, rx) = chan.split();
    tx.send(&mut chan, 1).unwrap();
    tx.drop(&mut chan);
    rx.drop(&mut chan);
    assert!(chan.is_closed());
    assert_eq!(chan.try_recv(), Ok(1));
    assert_eq!(chan.try_recv(), Err(TryRecvError::Disconnected));
    assert_eq!(chan.send(2), Err(SendError(2)));

    let mut chan = bounded::channel(1);
    let (tx, rx) = chan.split();
    tx.try_send(&mut chan, 1).unwrap();
    rx.drop(&mut chan);
    tx.drop(&mut chan);
    assert!(chan.is_closed());
    assert_eq!(chan.try_recv(), Ok(1));
    assert_eq!(chan.try_recv(), Err(TryRecvError::Disconnected));
    assert_eq!(chan.try_send(2), Err(TrySendError::Closed(2)));
}

#[test]
fn cloning_and_dropping_a_sender_changes_nothing() {
    let mut chan = unbounded::channel::<u8>();
    let (tx, mut rx) = chan.split();
    let clone = tx.clone(&mut chan);
    clone.drop(&mut chan);
    assert!(!tx.is_closed(&chan));
    tx.send(&mut chan, 1).unwrap();
    assert_eq!(rx.try_recv(&mut chan), Ok(1));

    let mut chan = bounded::channel::<u8>(1);
    let (tx, mut rx) = chan.split();
    let clone = tx.clone(&mut chan);
    clone.drop(&mut chan);
    assert!(!tx.is_closed(&chan));
    tx.try_send(&mut chan, 1).unwrap();
    assert_eq!(rx.try_recv(&mut chan), Ok(1));
}

#[test]
fn the_last_sender_wakes_the_receiver() {
    let mut chan = unbounded::channel::<u8>();
    let (tx, mut rx) = chan.split();
    let clone = tx.clone(&mut chan);
    assert!(rx.poll_recv(&mut chan, task(4)).is_pending());
    tx.drop(&mut chan);
    assert!(chan.take_wakes().is_empty());
    assert!(!rx.is_closed(&chan));
    clone.drop(&mut chan);
    assert_eq!(chan.take_wakes(), vec![task(4)]);
    assert!(rx.is_closed(&chan));
    assert_eq!(rx.poll_recv(&mut chan, task(4)), Poll::Ready(None));

    let (tx, mut rx, mut chan) = bounded::channel::<u8>(3).into_split();
    assert!(rx.poll_recv(&mut chan, task(5)).is_pending());
    tx.drop(&mut chan);
    assert_eq!(chan.take_wakes(), vec![task(5)]);
    assert_eq!(rx.poll_recv(&mut chan, task(5)), Poll::Ready(None));
    assert_eq!(rx.try_recv(&mut chan), Err(TryRecvError::Disconnected));
}

#[test]
fn every_element_wakes_the_waiting_receiver() {
    let mut chan = bounded::channel::<u8>(3);
    assert!(chan.poll_recv(task(1)).is_pending());
    assert!(chan.poll_recv(task(2)).is_pending());
    chan.try_send(1).unwrap();
    chan.try_send(2).unwrap();
    assert_eq!(chan.take_wakes(), vec![task(2), task(2)]);
    assert_eq!(chan.poll_recv(task(2)), Poll::Ready(Some(1)));
    assert_eq!(chan.poll_recv(task(2)), Poll::Ready(Some(2)));
}

#[test]
fn handles_know_their_channel() {
    let mut one = unbounded::channel::<u8>();
    let mut two = unbounded::channel::<u8>();
    let (tx1, _) = one.split();
    let (tx2, _) = two.split();
    let clone = tx1.clone(&mut one);
    assert!(tx1.same_channel(&tx1));
    assert!(tx1.same_channel(&clone));
    assert!(!tx1.same_channel(&tx2));

    let (tx1, _, mut one) = unbounded::channel::<u8>().into_split();
    let (tx2, _, _two) = unbounded::channel::<u8>().into_split();
    let clone = tx1.clone(&mut one);
    assert!(tx1.same_channel(&clone));
    assert!(!tx1.same_channel(&tx2));

    let mut one = bounded::channel::<u8>(1);
    let mut two = bounded::channel::<u8>(1);
    let (tx1, _) = one.split();
    let (tx2, _) = two.split();
    let clone = tx1.clone(&mut one);
    assert!(tx1.same_channel(&clone));
    assert!(!tx2.same_channel(&tx1));

    let (tx1, _, mut one) = bounded::channel::<u8>(1).into_split();
    let (tx2, _, _two) = bounded::channel::<u8>(1).into_split();
    let clone = tx1.clone(&mut one);
    assert!(tx1.same_channel(&clone));
    assert!(!tx2.same_channel(&tx1));
}

#[test]
fn an_emptied_queue_gives_its_memory_back() {
    let mut chan = UnboundedChannel::with_initial_capacity(10_000);
    chan.send(1).unwrap();
    assert_eq!(chan.try_recv(), Ok(1));
    assert_eq!(chan.try_recv(), Err(TryRecvError::Empty));
    assert!(chan.into_deque().capacity() < 2_500);

    // nothing has been received yet, so there is no reason to shrink
    let mut chan = Channel::<u8>::with_initial_capacity(1, 10_000);
    assert_eq!(chan.try_recv(), Err(TryRecvError::Empty));
    assert!(chan.into_deque().capacity() >= 10_000);
}

#[test]
fn a_queue_shrinks_while_it_is_drained() {
    let mut chan = UnboundedChannel::with_initial_capacity(10_000);
    for elem in 0..5_000 {
        chan.send(elem).unwrap();
    }
    for elem in 0..4_096 {
        assert_eq!(chan.try_recv(), Ok(elem));
    }
    let elems = chan.into_deque();
    assert!(elems.capacity() < 5_000);
    assert_eq!(elems, (4_096..5_000).collect::<VecDeque<i32>>());
}

#[test]
fn capacity_follows_the_elements() {
    let mut chan = Channel::with_initial_capacity(3, 8);
    assert_eq!(chan.max_capacity(), 3);
    assert_eq!(chan.capacity(), 3);
    for elem in 0..3 {
        assert_eq!(chan.try_send(elem), Ok(()));
        assert_eq!(chan.capacity() + chan.len(), 3);
    }
    assert_eq!(chan.try_send(3), Err(TrySendError::Full(3)));
    assert_eq!(chan.len(), 3);
    for elem in 0..3 {
        assert_eq!(chan.try_recv(), Ok(elem));
        assert_eq!(chan.capacity() + chan.len(), 3);
    }
    assert!(chan.is_empty());
    assert_eq!(chan.max_capacity(), 3);
}

#[test]
fn pre_queued_elements_take_capacity() {
    let mut chan = bounded::channel_from_iter(5, VecDeque::from([1, 2]));
    assert_eq!(chan.capacity(), 3);
    assert_eq!(chan.max_capacity(), 5);
    assert_eq!(chan.len(), 2);

    let (tx, rx) = chan.split();
    // splitting makes the whole capacity available
    assert_eq!(tx.capacity(&chan), 5);
    assert_eq!(rx.capacity(&chan), 5);
    assert_eq!(rx.max_capacity(&chan), 5);
    assert_eq!(rx.len(&chan), 2);
    assert!(!rx.is_empty(&chan));
    assert!(!tx.is_empty(&chan));
}

#[test]
fn surplus_elements_never_raise_the_capacity() {
    let mut chan = bounded::channel_from_iter(2, VecDeque::from([1, 2, 3, 4, 5]));
    assert_eq!(chan.capacity(), 0);
    for capacity in [1, 2, 2, 2, 2] {
        assert!(chan.try_recv().is_ok());
        assert_eq!(chan.capacity(), capacity);
    }
}

#[test]
fn reserving_and_sending_is_sending() {
    let mut chan = bounded::channel(2);
    let permit = chan.try_reserve().ok().unwrap();
    assert_eq!(chan.capacity(), 1);
    assert_eq!(chan.len(), 0);
    permit.send(&mut chan, 'x');
    assert_eq!(chan.capacity(), 1);
    assert_eq!(chan.len(), 1);
    assert_eq!(chan.try_recv(), Ok('x'));
    assert_eq!(chan.capacity(), 2);
}

#[test]
fn reserving_and_dropping_changes_nothing() {
    let mut chan = bounded::channel::<u8>(1);
    let permit = chan.try_reserve().ok().unwrap();
    match chan.try_reserve() {
        Err(error) => assert!(error.is_full()),
        Ok(_) => panic!("there is no capacity left"),
    }
    permit.drop(&mut chan);
    assert_eq!(chan.capacity(), 1);
    chan.close();
    match chan.try_reserve() {
        Err(error) => assert!(error.is_closed()),
        Ok(_) => panic!("the channel is closed"),
    }
}

#[test]
fn waiting_senders_get_capacity_in_order() {
    let mut chan = bounded::channel(1);
    chan.try_send(0).unwrap();
    let mut first = chan.send(1);
    let mut second = chan.send(2);
    assert!(first.poll(&mut chan, task(1)).is_pending());
    assert!(second.poll(&mut chan, task(2)).is_pending());
    assert_eq!(chan.outstanding_permits(), 0);

    assert_eq!(chan.try_recv(), Ok(0));
    assert_eq!(chan.take_wakes(), vec![task(1)]);
    assert_eq!(chan.capacity(), 0);
    assert_eq!(chan.outstanding_permits(), 1);
    // nobody else can jump the queue
    assert_eq!(chan.try_send(3), Err(TrySendError::Full(3)));
    assert!(second.poll(&mut chan, task(2)).is_pending());

    assert_eq!(first.poll(&mut chan, task(1)), Poll::Ready(Ok(())));
    assert_eq!(chan.outstanding_permits(), 0);
    first.drop(&mut chan);
    assert_eq!(chan.try_recv(), Ok(1));
    assert_eq!(second.poll(&mut chan, task(2)), Poll::Ready(Ok(())));
    assert_eq!(chan.try_recv(), Ok(2));
    assert_eq!(chan.capacity(), 1);
}

#[test]
fn closing_fails_waiting_senders_and_returns_their_values() {
    let mut chan = bounded::channel(1);
    let (tx, mut rx) = chan.split();
    tx.try_send(&mut chan, 0).unwrap();
    let mut send = tx.send(&mut chan, 1);
    let mut reserve = tx.reserve(&mut chan);
    assert!(send.poll(&mut chan, task(1)).is_pending());
    assert!(reserve.poll(&mut chan, task(2)).is_pending());
    rx.close(&mut chan);
    assert_eq!(chan.take_wakes(), vec![task(1), task(2)]);
    assert_eq!(send.poll(&mut chan, task(1)), Poll::Ready(Err(SendError(1))));
    assert!(matches!(reserve.poll(&mut chan, task(2)), Poll::Ready(Err(SendError(())))));
    send.drop(&mut chan);
    reserve.drop(&mut chan);
    assert_eq!(tx.try_send(&mut chan, 2), Err(TrySendError::Closed(2)));
    assert_eq!(rx.try_recv(&mut chan), Ok(0));
    assert_eq!(rx.try_recv(&mut chan), Err(TryRecvError::Disconnected));
}

#[test]
fn reserved_capacity_keeps_a_closed_channel_connected() {
    let mut chan = bounded::channel(2);
    let (tx, mut rx) = chan.split();
    let permit = tx.try_reserve(&mut chan).ok().unwrap();
    rx.close(&mut chan);
    assert_eq!(rx.try_recv(&mut chan), Err(TryRecvError::Empty));
    permit.send(&mut chan, 1);
    assert_eq!(rx.try_recv(&mut chan), Ok(1));
    assert_eq!(rx.try_recv(&mut chan), Err(TryRecvError::Disconnected));
}

#[test]
fn an_owned_permit_gives_the_sender_back() {
    let (tx, mut rx, mut chan) = bounded::channel(1).into_split();
    let permit = tx.try_reserve_owned(&mut chan).ok().unwrap();
    assert_eq!(chan.capacity(), 0);
    let tx = permit.send(&mut chan, 5);
    assert_eq!(tx.len(&chan), 1);
    assert_eq!(tx.capacity(&chan), 0);
    assert_eq!(tx.max_capacity(&chan), 1);
    let tx = match tx.try_reserve_owned(&mut chan) {
        Err(TrySendError::Full(tx)) => tx,
        _ => panic!("there is no capacity"),
    };
    assert_eq!(rx.try_recv(&mut chan), Ok(5));

    let mut fut = tx.reserve_owned(&mut chan);
    let permit = match fut.poll(&mut chan, task(1)) {
        Poll::Ready(Ok(permit)) => permit,
        _ => panic!("there is capacity"),
    };
    fut.drop(&mut chan);
    // dropping the permit drops the only sender
    permit.drop(&mut chan);
    assert_eq!(rx.capacity(&chan), 1);
    assert!(rx.is_closed(&chan));
    assert_eq!(rx.try_recv(&mut chan), Err(TryRecvError::Disconnected));
}

#[test]
fn an_owned_reservation_fails_with_the_sender() {
    let (tx, mut rx, mut chan) = bounded::channel::<u8>(1).into_split();
    tx.try_send(&mut chan, 1).unwrap();
    let mut fut = tx.reserve_owned(&mut chan);
    assert!(fut.poll(&mut chan, task(1)).is_pending());
    rx.close(&mut chan);
    let tx = match fut.poll(&mut chan, task(1)) {
        Poll::Ready(Err(SendError(tx))) => tx,
        _ => panic!("the channel is closed"),
    };
    fut.drop(&mut chan);
    assert!(tx.is_closed(&chan));
    let tx = match tx.try_reserve_owned(&mut chan) {
        Err(TrySendError::Closed(tx)) => tx,
        _ => panic!("the channel is closed"),
    };
    assert!(!tx.is_empty(&chan));
    tx.drop(&mut chan);
    rx.drop(&mut chan);
    assert!(chan.is_closed());
}

#[test]
fn dropping_a_waiting_owned_reservation_drops_the_sender() {
    let (tx, mut rx, mut chan) = bounded::channel::<u8>(1).into_split();
    tx.try_send(&mut chan, 1).unwrap();
    let clone = tx.clone(&mut chan);
    let mut fut = tx.reserve_owned(&mut chan);
    assert!(fut.poll(&mut chan, task(1)).is_pending());
    fut.drop(&mut chan);
    assert!(!rx.is_closed(&chan));
    clone.drop(&mut chan);
    assert!(rx.is_closed(&chan));
    assert_eq!(rx.poll_recv(&mut chan, task(2)), Poll::Ready(Some(1)));
    assert_eq!(rx.poll_recv(&mut chan, task(2)), Poll::Ready(None));
}

#[test]
fn unbounded_handles_of_a_consumed_channel() {
    let (tx, mut rx, mut chan) = unbounded::channel().into_split();
    tx.send(&mut chan, 'a').unwrap();
    let clone = tx.clone(&mut chan);
    clone.send(&mut chan, 'b').unwrap();
    assert_eq!(rx.len(&chan), 2);
    assert_eq!(tx.len(&chan), 2);
    assert!(!tx.is_empty(&chan));
    assert!(!rx.is_empty(&chan));
    assert_eq!(rx.try_recv(&mut chan), Ok('a'));
    assert_eq!(rx.poll_recv(&mut chan, task(1)), Poll::Ready(Some('b')));
    rx.close(&mut chan);
    assert!(tx.is_closed(&chan));
    assert!(rx.is_closed(&chan));
    assert_eq!(tx.send(&mut chan, 'c'), Err(SendError('c')));
    rx.drop(&mut chan);
    tx.drop(&mut chan);
    clone.drop(&mut chan);
    assert!(chan.is_closed());
}

#[test]
fn errors_describe_themselves() {
    assert_eq!(SendError(1).message(), "failed to send value, channel closed");
    assert_eq!(TrySendError::Full(1).message(), "failed to send value, channel full");
    assert_eq!(TrySendError::Closed(1).message(), "failed to send value, channel closed");
    assert_eq!(TryRecvError::Empty.message(), "channel is empty");
    assert_eq!(TryRecvError::Disconnected.message(), "channel is closed");
    assert!(TryRecvError::Empty.is_empty());
    assert!(!TryRecvError::Empty.is_disconnected());
    assert!(TryRecvError::Disconnected.is_disconnected());
    assert!(TrySendError::Full(1).is_full());
    assert!(!TrySendError::Full(1).is_closed());
    assert!(TrySendError::Closed(1).is_closed());
}

#[test]
fn errors_convert() {
    assert_eq!(TrySendError::from(SendError('x')), TrySendError::Closed('x'));
    assert_eq!(TrySendError::from((TryAcquireError::Closed, 'x')), TrySendError::Closed('x'));
    assert_eq!(TrySendError::from((TryAcquireError::NoPermits, 'x')), TrySendError::Full('x'));
    assert_eq!(TrySendError::from(TryAcquireError::Closed), TrySendError::Closed(()));
    assert_eq!(TrySendError::from(TryAcquireError::NoPermits), TrySendError::Full(()));
    assert_eq!(TrySendError::Full(1).set('x'), TrySendError::Full('x'));
    assert_eq!(TrySendError::Closed(1).set('x'), TrySendError::Closed('x'));
}

#[test]
fn owned_permits_outlive_their_sender() {
    let (tx, mut rx, mut chan) = bounded::channel(2).into_split();
    let clone = tx.clone(&mut chan);
    let p1 = clone.try_reserve_owned(&mut chan).ok().unwrap();
    let clone = tx.clone(&mut chan);
    let p2 = clone.try_reserve_owned(&mut chan).ok().unwrap();
    assert_eq!(chan.senders(), 3);

    assert!(tx.try_send(&mut chan, 1).is_err());
    assert!(tx.try_reserve(&mut chan).is_err());
    tx.drop(&mut chan);

    p2.send(&mut chan, 1).drop(&mut chan);
    p1.send(&mut chan, 2).drop(&mut chan);

    assert_eq!(rx.poll_recv(&mut chan, task(1)), Poll::Ready(Some(1)));
    assert_eq!(rx.poll_recv(&mut chan, task(1)), Poll::Ready(Some(2)));
    assert_eq!(rx.poll_recv(&mut chan, task(1)), Poll::Ready(None));
}

#[test]
fn a_dropped_reservation_never_raises_the_capacity_above_the_maximum() {
    let mut chan = Channel::from_iter(1, VecDeque::from([10, 20]));
    assert_eq!(chan.try_recv(), Ok(10));
    let permit = chan.try_reserve().ok().unwrap();
    assert_eq!(chan.try_recv(), Ok(20));
    permit.drop(&mut chan);
    assert_eq!(chan.capacity(), 1);
    assert_eq!(chan.max_capacity(), 1);

    assert!(chan.can_split());
    let (tx, _rx) = chan.split();
    assert_eq!(tx.capacity(&chan), 1);
}

#[test]
fn a_dropped_reservation_leaves_a_waiting_sender_its_capacity() {
    let mut chan = bounded::channel::<i32>(2);
    let (tx, mut rx) = chan.split();
    let permit = tx.try_reserve(&mut chan).ok().unwrap();
    assert_eq!(tx.try_send(&mut chan, 1), Ok(()));
    let mut send = tx.send(&mut chan, 2);
    assert!(send.poll(&mut chan, task(1)).is_pending());
    assert_eq!(rx.try_recv(&mut chan), Ok(1));
    assert_eq!(chan.take_wakes(), vec![task(1)]);
    assert_eq!(chan.outstanding_permits(), 1);

    permit.drop(&mut chan);
    assert_eq!(tx.capacity(&chan), 1);
    assert_eq!(chan.outstanding_permits(), 1);
    assert_eq!(send.poll(&mut chan, task(1)), Poll::Ready(Ok(())));
    assert_eq!(chan.outstanding_permits(), 0);
    assert_eq!(rx.try_recv(&mut chan), Ok(2));
    assert_eq!(tx.capacity(&chan), 2);
}

#[test]
fn a_dropped_reservation_goes_to_the_next_waiting_sender() {
    let mut chan = bounded::channel(2);
    let permit = chan.try_reserve().ok().unwrap();
    chan.try_send(0).unwrap();
    let mut first = chan.send(1);
    let mut second = chan.send(2);
    assert!(first.poll(&mut chan, task(1)).is_pending());
    assert!(second.poll(&mut chan, task(2)).is_pending());
    assert_eq!(chan.try_recv(), Ok(0));
    permit.drop(&mut chan);
    assert_eq!(chan.take_wakes(), vec![task(1), task(2)]);
    assert_eq!(chan.outstanding_permits(), 2);
    assert_eq!(chan.capacity(), 0);
    assert_eq!(second.poll(&mut chan, task(2)), Poll::Ready(Ok(())));
    assert_eq!(first.poll(&mut chan, task(1)), Poll::Ready(Ok(())));
    assert_eq!(chan.try_recv(), Ok(2));
    assert_eq!(chan.try_recv(), Ok(1));
    assert_eq!(chan.capacity(), 2);
}

#[test]
fn splitting_makes_the_whole_capacity_available() {
    let mut chan = bounded::channel(1);
    chan.try_send(0).unwrap();
    let mut send = chan.send(1);
    assert!(send.poll(&mut chan, task(1)).is_pending());
    assert_eq!(chan.try_recv(), Ok(0));
    assert_eq!(chan.capacity(), 0);
    assert_eq!(chan.outstanding_permits(), 1);

    let (tx, mut rx) = chan.split();
    assert_eq!(tx.capacity(&chan), 1);
    assert_eq!(chan.outstanding_permits(), 1);
    // the sender that had been woken before still has its capacity
    assert_eq!(send.poll(&mut chan, task(1)), Poll::Ready(Ok(())));
    assert_eq!(chan.outstanding_permits(), 0);
    assert_eq!(tx.capacity(&chan), 1);
    assert_eq!(rx.try_recv(&mut chan), Ok(1));
    assert_eq!(tx.capacity(&chan), 1);
}

#[test]
fn dropping_a_sender_never_raises_the_capacity_above_the_maximum() {
    let mut chan = bounded::channel(1);
    chan.try_send(0).unwrap();
    let mut send = chan.send(1);
    assert!(send.poll(&mut chan, task(1)).is_pending());
    assert_eq!(chan.try_recv(), Ok(0));
    let (tx, _rx) = chan.split();
    send.drop(&mut chan);
    assert_eq!(tx.capacity(&chan), 1);
    assert_eq!(tx.max_capacity(&chan), 1);
    assert_eq!(chan.outstanding_permits(), 0);
}

#[test]
fn closing_wakes_the_receiver() {
    let mut chan = unbounded::channel::<u8>();
    assert!(chan.poll_recv(task(1)).is_pending());
    chan.close();
    assert_eq!(chan.take_wakes(), vec![task(1)]);
    assert_eq!(chan.poll_recv(task(1)), Poll::Ready(None));
    chan.close();
    assert!(chan.take_wakes().is_empty());

    let mut chan = bounded::channel::<u8>(1);
    let (tx, mut rx) = chan.split();
    assert!(rx.poll_recv(&mut chan, task(2)).is_pending());
    rx.close(&mut chan);
    assert_eq!(chan.take_wakes(), vec![task(2)]);
    assert_eq!(rx.poll_recv(&mut chan, task(2)), Poll::Ready(None));
    assert!(tx.is_closed(&chan));
}

#[test]
fn remaining_senders_do_not_keep_a_channel_open() {
    let mut chan = unbounded::channel();
    let (tx, rx) = chan.split();
    tx.send(&mut chan, 1).unwrap();
    rx.drop(&mut chan);
    assert_eq!(chan.senders(), 1);
    assert!(chan.is_closed());
    assert_eq!(chan.send(2), Err(SendError(2)));
    assert_eq!(chan.poll_recv(task(1)), Poll::Ready(Some(1)));
    assert_eq!(chan.poll_recv(task(1)), Poll::Ready(None));

    let mut chan = bounded::channel(1);
    let (_tx, rx) = chan.split();
    rx.drop(&mut chan);
    assert!(chan.is_closed());
    assert_eq!(chan.try_send(2), Err(TrySendError::Closed(2)));
    assert_eq!(chan.try_recv(), Err(TryRecvError::Disconnected));
}

#[test]
fn senders_are_counted() {
    let mut chan = unbounded::channel::<u8>();
    assert_eq!(chan.senders(), 0);
    assert!(chan.can_split());
    assert!(chan.can_add_sender());
    let (tx, _rx) = chan.split();
    assert_eq!(chan.senders(), 1);
    let clone = tx.clone(&mut chan);
    assert_eq!(chan.senders(), 2);
    clone.drop(&mut chan);
    tx.drop(&mut chan);
    assert_eq!(chan.senders(), 0);
    assert!(chan.is_closed());
}

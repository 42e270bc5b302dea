use async_unsync::bounded::{channel, Channel, ReceiverRef, SendFuture, SenderRef};
use async_unsync::{Poll, Waker};

/// A task that sends its id until the channel is closed and lets the other
/// tasks run after each value that was sent.
struct PushLoop {
    tx: SenderRef<i32>,
    id: i32,
    send: Option<SendFuture<i32>>,
    count: usize,
}

impl PushLoop {
    fn poll(&mut self, chan: &mut Channel<i32>) -> Poll<()> {
        let waker = Waker { task: self.id as u64 };
        let mut send = match self.send.take() {
            Some(send) => send,
            None => self.tx.send(chan, self.id),
        };
        match send.poll(chan, waker) {
            Poll::Ready(Ok(())) => {
                self.count += 1;
                Poll::Pending
            }
            Poll::Ready(Err(_)) => Poll::Ready(()),
            Poll::Pending => {
                self.send = Some(send);
                Poll::Pending
            }
        }
    }
}

/// A task that receives values until the channel is closed, which it does itself
/// after the tenth value.
struct PullLoop {
    rx: ReceiverRef<i32>,
    vec: Vec<i32>,
}

impl PullLoop {
    fn poll(&mut self, chan: &mut Channel<i32>) -> Poll<()> {
        loop {
            match self.rx.poll_recv(chan, Waker { task: 0 }) {
                Poll::Ready(Some(id)) => {
                    self.vec.push(id);
                    if self.vec.len() == 10 {
                        self.rx.close(chan);
                    }
                }
                Poll::Ready(None) => return Poll::Ready(()),
                Poll::Pending => return Poll::Pending,
            }
        }
    }
}

#[test]
fn mpsc() {
    let mut chan = channel(1);
    let (tx, rx) = chan.split();

    let clone = tx.clone(&mut chan);
    let mut push1 = Some(PushLoop { tx: clone, id: 1, send: None, count: 0 });
    let mut push2 = Some(PushLoop { tx, id: 2, send: None, count: 0 });
    let mut pull = PullLoop { rx, vec: vec![] };

    loop {
        for push in [&mut push1, &mut push2] {
            if let Some(mut task) = push.take() {
                if task.poll(&mut chan).is_ready() {
                    assert_eq!(task.count, 5);
                    task.tx.drop(&mut chan);
                } else {
                    *push = Some(task);
                }
            }
        }
        if pull.poll(&mut chan).is_ready() {
            break;
        }
    }

    for push in [push1, push2] {
        if let Some(mut task) = push {
            assert!(task.poll(&mut chan).is_ready());
            assert_eq!(task.count, 5);
        }
    }
    assert_eq!(pull.vec, &[1, 2, 1, 2, 1, 2, 1, 2, 1, 2]);
}

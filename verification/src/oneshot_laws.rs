//! The laws of oneshot channels: what holds across their operations.

use crate::error::{SendError, TryRecvError};
use crate::oneshot::{OneshotView, RecvError};
use crate::task::{Poll, Waker};
use vstd::prelude::*;

verus! {

/// The value that was sent is received exactly once; after that the channel is
/// disconnected.
pub proof fn law_send_and_receive<T>(state: OneshotView<T>, value: T)
    requires
        !state.closed,
    ensures
        ({
            let sent = state.send(value).drop_sender();
            &&& state.send_result(value) == Ok::<(), SendError<T>>(())
            &&& sent.recv_result() == Ok::<T, TryRecvError>(value)
            &&& sent.poll_result() == Poll::Ready(Ok::<T, RecvError>(value))
            &&& sent.recv().recv_result() == Err::<T, _>(TryRecvError::Disconnected)
            &&& sent.recv().poll_result() == Poll::Ready(Err::<T, _>(RecvError))
        }),
{
}

/// Polling for the value agrees with attempting to receive it.
pub proof fn law_poll_is_recv<T>(state: OneshotView<T>, waker: Waker)
    ensures
        state.poll_result() is Ready <==> !(state.recv_result() == Err::<T, _>(
            TryRecvError::Empty,
        )),
        state.poll_result() is Ready ==> state.poll_recv(waker) == state.recv(),
        state.poll_result() is Pending ==> state.poll_recv(waker) == (OneshotView {
            recv_waker: Some(waker),
            ..state
        }),
{
}

/// No value can be sent after another one has been sent or the sender has been
/// dropped.
pub proof fn law_send_once<T>(state: OneshotView<T>, first: T, second: T)
    ensures
        state.send(first).drop_sender().send_result(second) == Err::<(), _>(SendError(second)),
        state.send(first).drop_sender().send(second) == state.send(first).drop_sender(),
        state.drop_sender().send_result(second) == Err::<(), _>(SendError(second)),
{
}

/// A receiver that had to wait is woken by the value, and polling it again hands
/// the value over.
pub proof fn law_send_wakes_receiver<T>(state: OneshotView<T>, waker: Waker, value: T)
    requires
        state.poll_result() is Pending,
    ensures
        state.poll_recv(waker).send(value).wakes == state.wakes.push(waker),
        state.poll_recv(waker).send(value).poll_result() == Poll::Ready(Ok::<T, RecvError>(value)),
{
    assert(state.poll_recv(waker).send(value).wakes =~= state.wakes.push(waker));
}

/// Once the sender has been dropped without sending a value, receiving fails.
pub proof fn law_drop_sender<T>(state: OneshotView<T>)
    requires
        state.value is None,
    ensures
        state.drop_sender().recv_result() == Err::<T, _>(TryRecvError::Disconnected),
        state.drop_sender().poll_result() == Poll::Ready(Err::<T, _>(RecvError)),
{
}

/// Closing the channel makes sending fail and returns the value, wakes the
/// sender that waits for the channel to be closed, and lets it resolve.
pub proof fn law_close<T>(state: OneshotView<T>, waker: Waker, value: T)
    requires
        !state.closed,
    ensures
        state.closed_result() is Pending,
        state.poll_closed(waker).close().wakes == state.wakes.push(waker),
        state.poll_closed(waker).close().closed_result() == Poll::Ready(()),
        state.close().send_result(value) == Err::<(), _>(SendError(value)),
        state.close().send(value) == state.close(),
{
    assert(state.poll_closed(waker).close().wakes =~= state.wakes.push(waker));
}

/// A value that was sent before the channel was closed can still be received.
pub proof fn law_receive_after_close<T>(state: OneshotView<T>, value: T)
    requires
        !state.closed,
    ensures
        state.send(value).close().recv_result() == Ok::<T, TryRecvError>(value),
{
}

/// Closing a closed channel changes nothing.
pub proof fn law_close_twice<T>(state: OneshotView<T>)
    ensures
        state.close().close() == state.close(),
{
}

/// A closed channel is never opened again.
pub proof fn law_closed_forever<T>(state: OneshotView<T>, waker: Waker, value: T)
    requires
        state.closed,
    ensures
        state.send(value).closed,
        state.drop_sender().closed,
        state.close().closed,
        state.poll_closed(waker).closed,
        state.recv().closed,
        state.poll_recv(waker).closed,
{
}

} // verus!

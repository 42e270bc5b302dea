//! What each operation of a oneshot channel does to what the channel stores.

use crate::error::{SendError, TryRecvError};
use crate::oneshot::{OneshotView, RecvError};
use crate::task::{Poll, Waker};
use vstd::prelude::*;

verus! {

/// A new channel is open and holds neither a value nor a task.
pub proof fn law_fresh<T>()
    ensures
        ({
            let state = OneshotView::<T>::fresh();
            &&& state.value is None
            &&& state.recv_waker is None
            &&& state.close_waker is None
            &&& !state.closed
            &&& state.wakes.len() == 0
        }),
{
}

/// An open channel accepts the value and wakes the receiver that waits; a closed
/// one hands the value back and stays as it is.
pub proof fn law_send<T>(state: OneshotView<T>, value: T)
    ensures
        state.closed ==> {
            &&& state.send_result(value) == Err::<(), _>(SendError(value))
            &&& state.send(value) == state
        },
        !state.closed ==> {
            let after = state.send(value);
            &&& state.send_result(value) == Ok::<(), SendError<T>>(())
            &&& after.value == Some(value)
            &&& state.recv_waker is None ==> after.wakes == state.wakes
            &&& state.recv_waker matches Some(task) ==> after.wakes == state.wakes.push(task)
            &&& after.recv_waker == state.recv_waker
            &&& after.close_waker == state.close_waker
            &&& !after.closed
        },
{
    crate::channel_effects::law_notify(state.recv_waker, state.wakes);
}

/// Dropping the sender closes the channel and changes nothing else.
pub proof fn law_drop_sender_effect<T>(state: OneshotView<T>)
    ensures
        state.drop_sender() == (OneshotView { closed: true, ..state }),
{
}

/// Closing an open channel wakes the sender that waits for it and keeps a value
/// that has been sent; closing a closed one changes nothing.
pub proof fn law_close_effect<T>(state: OneshotView<T>)
    ensures
        state.closed ==> state.close() == state,
        state.close().closed,
        state.close().value == state.value,
        state.close().recv_waker == state.recv_waker,
        state.close().close_waker == state.close_waker,
        !state.closed && state.close_waker is None ==> state.close().wakes == state.wakes,
        !state.closed ==> (state.close_waker matches Some(task) ==> state.close().wakes
            == state.wakes.push(task)),
{
    crate::channel_effects::law_notify(state.close_waker, state.wakes);
}

/// Polling for the channel to be closed resolves exactly once it is; until then
/// the task is remembered, and nothing else changes.
pub proof fn law_poll_closed<T>(state: OneshotView<T>, waker: Waker)
    ensures
        state.closed ==> {
            &&& state.closed_result() == Poll::Ready(())
            &&& state.poll_closed(waker) == state
        },
        !state.closed ==> {
            &&& state.closed_result() == Poll::<()>::Pending
            &&& state.poll_closed(waker) == (OneshotView { close_waker: Some(waker), ..state })
        },
{
}

/// A value that has been sent is received, whether or not the channel is closed,
/// and nothing but the value is taken.
pub proof fn law_recv_value<T>(state: OneshotView<T>, waker: Waker, value: T)
    requires
        state.value == Some(value),
    ensures
        state.recv_result() == Ok::<T, TryRecvError>(value),
        state.poll_result() == Poll::Ready(Ok::<T, RecvError>(value)),
        state.recv() == (OneshotView { value: None, ..state }),
        state.poll_recv(waker) == (OneshotView { value: None, ..state }),
{
}

/// Without a value nothing is received. The end is reported exactly if the
/// channel is closed; otherwise a task that polls is remembered, and nothing
/// else changes.
pub proof fn law_recv_nothing<T>(state: OneshotView<T>, waker: Waker)
    requires
        state.value is None,
    ensures
        state.recv() == state,
        state.closed ==> {
            &&& state.recv_result() == Err::<T, _>(TryRecvError::Disconnected)
            &&& state.poll_result() == Poll::Ready(Err::<T, _>(RecvError))
            &&& state.poll_recv(waker) == state
        },
        !state.closed ==> {
            &&& state.recv_result() == Err::<T, _>(TryRecvError::Empty)
            &&& state.poll_result() == Poll::<Result<T, RecvError>>::Pending
            &&& state.poll_recv(waker) == (OneshotView { recv_waker: Some(waker), ..state })
        },
{
}

} // verus!

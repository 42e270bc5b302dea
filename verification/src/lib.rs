//! Asynchronous channels and semaphores for single-threaded use.

pub mod bound;
pub mod bounded;
pub mod channel_effects;
pub mod channel_laws;
mod error;
mod identity;
pub mod mask;
pub mod oneshot;
pub mod oneshot_effects;
pub mod oneshot_laws;
pub mod permit_effects;
pub mod permit_laws;
pub mod permits;
pub mod queue;
pub mod semaphore;
pub mod task;
pub mod unbounded;
mod waiter;

pub use crate::error::{SendError, TryRecvError, TrySendError};
pub use crate::task::{Poll, Waker};

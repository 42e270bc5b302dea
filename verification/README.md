# async_unsync

Asynchronous but unsynchronized (single-threaded) channels and a semaphore,
written in Verus.

- `src/` is the verified library: the bounded, unbounded and oneshot channels,
  the semaphore, and the laws that hold of them.
- `app/` connects the library with futures, `Drop` and the tasks of an executor.
- `tests/` runs the library.

## How the library is put together

The state of a primitive is a value that is passed to each operation, so every
contract says how the operation changes it: a channel is split into handles, and
the handles' operations take the channel. A handle names the channel that it
belongs to by its identity, and a permit its semaphore. What happens in Rust when a handle, a permit or a
pending operation goes out of scope is the method `drop` of its type.

An operation that may have to wait is a value with a method `poll`. It takes the
number of the task that is to be woken (`Waker`) and either resolves or remembers
the task. Woken tasks are appended to a list that the executor takes with
`take_wakes`.

| module | contents |
| --- | --- |
| `task` | `Waker` and `Poll` |
| `mask` | the closed flag and the sender count in one word |
| `waiter` | a linked list of waiters in an arena |
| `permits` | the accounting of permits as mathematics |
| `semaphore` | the semaphore |
| `bound`, `queue` | the queue that bounded and unbounded channels share |
| `bounded`, `unbounded`, `oneshot` | the channels and their handles |
| `identity` | which channel or semaphore a handle or a permit belongs to |
| `error` | the errors |
| `permit_laws`, `channel_laws`, `oneshot_laws` | what holds across operations |

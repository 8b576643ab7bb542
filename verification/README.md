# bachelor

Single-threaded async primitives (`!Send`, `!Sync`) for thread-per-core
executors, verified with Verus.

| Type | What it is |
|------|------------|
| `SpscChannel<T>` | Bounded channel, one producer, one consumer. |
| `MpscChannel<T>` | Bounded channel, many producers, one consumer, with a sink. |
| `SpmcBroadcast<T>` | Bounded channel that hands every item to every consumer. |
| `MpscLatchedSignal` | Notification for one consumer. |
| `MpscFiniteLatchedSignal` | The same, and it closes with its last producer. |
| `MpmcLatchedSignal` | Notification for many consumers, by generations. |
| `MpmcFiniteLatchedSignal` | The same, and it closes with its last producer or receiver. |
| `MpscWatchRef<T>` | Value whose changes one consumer observes. |
| `MpmcWatchRef<T>` | Value whose changes many consumers observe. |

## Layout

- `src/` is the verified library. It decides what happens to a primitive and
  which wakers are due. `src/queue/` holds the two queues, `src/slots.rs` the
  slots that waiting tasks and consumers are kept in, `src/wake.rs` the list of
  wakers that are due, `src/handles.rs` the counting of handles, and the other
  modules one primitive each.
- `app/` keeps the primitives behind `Rc` and `RefCell`, gives every broadcast
  channel a label of its own, by which keys of other channels are recognised,
  wakes the wakers that are due, and implements `Future`, `Stream`, `Sink`,
  `Clone` and `Drop`.
- `tests/` runs the library with the outside crates linked.

## What is trusted

The contracts of the functions marked `external_body` and of
`<Waker as Clone>::clone`. They describe `slab::Slab`, `smallvec::SmallVec` and
`VecDeque::shrink_to_fit`. Each has a comment that says what is claimed.

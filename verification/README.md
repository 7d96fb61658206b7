# executor

A work-stealing executor for asynchronous and blocking tasks, with its core
verified in Verus.

The library (`src/`) decides; it never sleeps, polls or starts a thread itself.
Each of its operations takes the state exclusively and returns what the caller
has to do next.

| module     | what it decides                                                            |
|------------|----------------------------------------------------------------------------|
| `parking`  | whether a thread sleeps, and who is woken                                  |
| `queue`    | which task a worker takes: its own, one nobody has taken on, or a peer's   |
| `pool`     | what a worker does next, and when another blocking worker is started       |
| `executor` | spawning, the handles that keep an executor going, and shutting down       |
| `context`  | which executor a thread is running inside                                  |
| `poller`   | what holds while a thread runs a future to completion and wakers are called |
| `laws`     | what holds of several operations together                                  |
| `system`   | what holds while the threads of a pool run side by side, in any order      |

The queues are those of `crossbeam-deque`; a task stands in them by its number.
The state is reached by one thread at a time, under a lock, and the contracts of
the queue operations rely on that.

The threads, futures, condition variables and log messages are in `app/`.

//! The core of a work-stealing executor for asynchronous and blocking tasks.
//!
//! Everything an executor decides is here: which task a worker runs next, when
//! a worker sleeps and who is woken, when a blocking worker is started, when
//! the executor is shut down, and which executor a thread is running inside.
//! Each operation takes the state exclusively and says what the caller has to
//! do next; polling futures, sleeping and starting threads is up to the caller.

pub mod context;
pub mod effects;
pub mod executor;
pub mod laws;
pub mod parking;
pub mod poller;
pub mod pool;
pub mod queue;
pub mod system;

pub use crate::context::{block_on, spawn, spawn_blocking, Context, ContextError, EnterGuard, Entry};
pub use crate::executor::{BlockOn, Executor, ExecutorView, Polled};
pub use crate::parking::{Notify, Park, Parking, ParkingView};
pub use crate::poller::{Completion, Poller, PollerEvent, PollerPhase};
pub use crate::pool::{Launch, Pool, PoolView, WorkerStep};
pub use crate::queue::{Queues, QueuesView, Steal};
pub use crate::system::{Event, Phase, System};

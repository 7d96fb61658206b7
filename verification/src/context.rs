//! Which executor a thread is running inside, and what is done there without
//! naming one.
use crate::executor::Executor;
use crate::parking::Notify;
use crate::pool::Launch;
use vstd::prelude::*;

verus! {

/// The executor that a thread is running inside. `H` stands for it.
pub struct Context<H> {
    current: Option<H>,
}

/// What a thread was running inside before it entered another executor.
pub struct EnterGuard<H> {
    previous: Option<H>,
}

impl<H> View for Context<H> {
    type V = Option<H>;

    closed spec fn view(&self) -> Option<H> {
        self.current
    }
}

impl<H> View for EnterGuard<H> {
    type V = Option<H>;

    closed spec fn view(&self) -> Option<H> {
        self.previous
    }
}

/// What a thread runs inside after it has entered an executor, and what the
/// guard remembers.
pub open spec fn entered<H>(current: Option<H>, executor: H) -> (Option<H>, Option<H>) {
    (Some(executor), current)
}

/// What a thread runs inside after a guard that remembers `previous` is gone.
pub open spec fn left<H>(current: Option<H>, previous: Option<H>) -> Option<H> {
    previous
}

impl<H> Context<H> {
    /// A thread that is not running inside any executor.
    pub fn new() -> (context: Self)
        ensures
            context@ == None::<H>,
    {
        Context { current: None }
    }

    /// What the thread is running inside.
    pub fn current(&self) -> (current: Option<&H>)
        ensures
            current == match self@ {
                Some(executor) => Some(&executor),
                None => None,
            },
    {
        self.current.as_ref()
    }

    /// The thread enters an executor. The guard remembers where it was.
    pub fn enter(&mut self, executor: H) -> (guard: EnterGuard<H>)
        ensures
            (final(self)@, guard@) == entered(old(self)@, executor),
            final(self)@ == Some(executor),
            guard@ == old(self)@,
    {
        let previous = self.current.take();
        self.current = Some(executor);
        EnterGuard { previous }
    }

    /// The thread is back where it was when the guard was made.
    pub fn leave(&mut self, guard: EnterGuard<H>)
        ensures
            final(self)@ == left(old(self)@, guard@),
            final(self)@ == guard@,
    {
        self.current = guard.previous;
    }
}

/// Why nothing can be done without naming an executor.
#[derive(Clone, Copy, Debug, PartialEq, Eq, Structural)]
pub enum ContextError {
    /// The thread is not running inside any.
    Outside,
    /// The one it is running inside is shut down. The sleeping workers of its
    /// two pools that are named here are to be signalled.
    ShutDown(Notify, Notify),
}

impl ContextError {
    /// The reason in words.
    pub fn message(self) -> (message: &'static str)
        ensures
            message@ == match self {
                ContextError::Outside =>
                    "cannot implicitely spawn tasks outside of an executor context"@,
                ContextError::ShutDown(..) => "executor is shut down"@,
            },
    {
        match self {
            ContextError::Outside =>
                "cannot implicitely spawn tasks outside of an executor context",
            ContextError::ShutDown(..) => "executor is shut down",
        }
    }
}

/// Where a future is run to completion.
pub enum Entry {
    /// In the executor that the thread is running inside, of which it now holds
    /// a handle.
    Current,
    /// In a new executor.
    Fresh(Executor),
}

/// The error for an executor that is shut down.
pub open spec fn shut_down() -> ContextError {
    ContextError::ShutDown(Notify::Everyone, Notify::Everyone)
}

/// Finds the executor to run a future to completion in: the one that the thread
/// is running inside, or a new one.
pub fn block_on(current: Option<&mut Executor>) -> (entry: Result<Entry, ContextError>)
    requires
        current matches Some(executor) ==> executor.inv() && executor@.refs < usize::MAX,
    ensures
        match current {
            None => entry matches Ok(Entry::Fresh(executor)) && executor.inv()
                && executor@.is_default(),
            Some(executor) => {
                &&& final(executor).inv()
                &&& if executor@.is_shut_down() {
                    &&& entry == Err::<Entry, ContextError>(shut_down())
                    &&& final(executor)@ == executor@
                } else {
                    &&& entry == Ok::<Entry, ContextError>(Entry::Current)
                    &&& final(executor)@ == executor@.retain()
                }
            },
        },
{
    match current {
        None => Ok(Entry::Fresh(Executor::new())),
        Some(executor) => match executor.upgrade() {
            Ok(()) => Ok(Entry::Current),
            Err((asinc, blocking)) => Err(ContextError::ShutDown(asinc, blocking)),
        },
    }
}

/// Spawns a task that polls a future in the executor that the thread is running
/// inside.
pub fn spawn(current: Option<&mut Executor>) -> (spawned: Result<(usize, Notify), ContextError>)
    requires
        current matches Some(executor) ==> executor.inv() && executor@.refs < usize::MAX,
    ensures
        match current {
            None => spawned == Err::<(usize, Notify), ContextError>(ContextError::Outside),
            Some(executor) => {
                &&& final(executor).inv()
                &&& if executor@.is_shut_down() {
                    &&& spawned == Err::<(usize, Notify), ContextError>(shut_down())
                    &&& final(executor)@ == executor@
                } else {
                    &&& spawned matches Ok((id, notify))
                    &&& (final(executor)@, id, notify) == executor@.spawn()
                }
            },
        },
{
    match current {
        None => Err(ContextError::Outside),
        Some(executor) => match executor.upgrade() {
            Ok(()) => {
                let spawned = executor.spawn();
                let _ = executor.release();
                Ok(spawned)
            },
            Err((asinc, blocking)) => Err(ContextError::ShutDown(asinc, blocking)),
        },
    }
}

/// Spawns a task that may block in the executor that the thread is running
/// inside.
pub fn spawn_blocking(current: Option<&mut Executor>) -> (spawned: Result<
    (usize, Launch),
    ContextError,
>)
    requires
        current matches Some(executor) ==> executor.inv() && executor@.refs < usize::MAX,
    ensures
        match current {
            None => spawned == Err::<(usize, Launch), ContextError>(ContextError::Outside),
            Some(executor) => {
                &&& final(executor).inv()
                &&& if executor@.is_shut_down() {
                    &&& spawned == Err::<(usize, Launch), ContextError>(shut_down())
                    &&& final(executor)@ == executor@
                } else {
                    &&& spawned matches Ok((id, launch))
                    &&& (final(executor)@, id, launch) == executor@.spawn_blocking()
                }
            },
        },
{
    match current {
        None => Err(ContextError::Outside),
        Some(executor) => match executor.upgrade() {
            Ok(()) => {
                let spawned = executor.spawn_blocking();
                let _ = executor.release();
                Ok(spawned)
            },
            Err((asinc, blocking)) => Err(ContextError::ShutDown(asinc, blocking)),
        },
    }
}

} // verus!

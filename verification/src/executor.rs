//! An executor: a pool of workers that poll futures, a pool of workers that
//! may block, and the handles that keep both going.
use crate::parking::{Notify, Park, Parking, ParkingView};
use crate::pool::{Launch, Pool, PoolView, WorkerStep};
use vstd::prelude::*;

verus! {

/// What polling a future came to.
#[derive(Debug)]
pub enum Polled<T> {
    /// It is complete, with this output.
    Ready(T),
    /// It is not complete, and its waker will be called when it is worth
    /// polling again.
    Pending,
}

/// What a thread does next that runs a future to completion.
#[derive(Debug)]
pub enum BlockOn<T> {
    /// It is done and returns this output.
    Return(T),
    /// It parks: it sleeps until it is signalled, unless a wake-up was left
    /// behind for it, and then polls again.
    Park(Park),
}

/// What a thread does next that has polled a future, and what becomes of the
/// place where it sleeps: it returns the output of a future that is complete,
/// and parks otherwise.
pub open spec fn settles<T>(polled: Polled<T>, parking: ParkingView) -> (
    ParkingView,
    BlockOn<T>,
) {
    match polled {
        Polled::Ready(output) => (parking, BlockOn::Return(output)),
        Polled::Pending => (parking.park().0, BlockOn::Park(parking.park().1)),
    }
}

/// The state of an [`Executor`].
#[verifier::ext_equal]
pub struct ExecutorView {
    /// The pool that polls futures.
    pub asinc: PoolView,
    /// The pool for work that blocks.
    pub blocking: PoolView,
    /// How many handles there are. Without any the executor is shut down.
    pub refs: nat,
}

/// How many workers an executor gets on a machine with that many processors:
/// one for each of them to poll futures, and up to four for each that may
/// block. At least one processor is counted. Where the product is too large
/// for a machine word, it wraps around.
pub open spec fn default_sizes(cpus: usize) -> (nat, nat) {
    let workers = if cpus == 0 {
        1
    } else {
        cpus as nat
    };
    if workers * 4 <= usize::MAX {
        (workers, workers * 4)
    } else {
        (workers, (workers * 4) % (usize::MAX as nat + 1))
    }
}

impl ExecutorView {
    /// An executor that was just created and has one handle.
    pub open spec fn initial(num_async: nat, num_blocking: nat) -> ExecutorView {
        ExecutorView {
            asinc: PoolView::initial(num_async, num_async),
            blocking: PoolView::initial(0, num_blocking),
            refs: 1,
        }
    }

    /// An executor that was just created for a machine with some number of
    /// processors.
    pub open spec fn is_default(self) -> bool {
        exists|cpus: usize|
            self == Self::initial((#[trigger] default_sizes(cpus)).0, default_sizes(cpus).1)
    }

    /// There is no handle left.
    pub open spec fn is_shut_down(self) -> bool {
        self.refs == 0
    }

    /// A task that polls a future gets its number and is queued.
    pub open spec fn spawn(self) -> (ExecutorView, usize, Notify) {
        let id = self.asinc.task_id;
        let (asinc, notify) = self.asinc.allocate().schedule(id);
        (ExecutorView { asinc, ..self }, id, notify)
    }

    /// A task that may block gets its number and is queued.
    pub open spec fn spawn_blocking(self) -> (ExecutorView, usize, Launch) {
        let id = self.blocking.task_id;
        let (blocking, launch) = self.blocking.allocate().launch(id);
        (ExecutorView { blocking, ..self }, id, launch)
    }

    /// There is one more handle.
    pub open spec fn retain(self) -> ExecutorView {
        ExecutorView { refs: self.refs + 1, ..self }
    }

    /// There is one handle less. After the last one every worker is woken.
    pub open spec fn release(self) -> (ExecutorView, (Notify, Notify)) {
        let after = ExecutorView { refs: (self.refs - 1) as nat, ..self };
        if after.is_shut_down() {
            (after, (Notify::Everyone, Notify::Everyone))
        } else {
            (after, (Notify::Nobody, Notify::Nobody))
        }
    }
}

/// Calls `num_cpus::get`: how many processors this process may use, which is
/// up to the machine. It is documented to be at least one.
#[verifier::external_body]
fn num_cpus() -> (cpus: usize)
    ensures
        cpus >= 1,
{
    num_cpus::get()
}

/// The state of an executor that its handles share.
pub struct Executor {
    asinc: Pool,
    blocking: Pool,
    refs: usize,
}

impl View for Executor {
    type V = ExecutorView;

    closed spec fn view(&self) -> ExecutorView {
        ExecutorView { asinc: self.asinc@, blocking: self.blocking@, refs: self.refs as nat }
    }
}

impl Executor {
    /// Both pools are in order.
    pub closed spec fn inv(self) -> bool {
        &&& self.asinc.inv()
        &&& self.blocking.inv()
    }

    /// What is known of the state of every executor in order.
    pub proof fn law_in_order(self)
        requires
            self.inv(),
        ensures
            self@.asinc.inv(),
            self@.blocking.inv(),
            self@.asinc.limit <= usize::MAX,
            self@.blocking.limit <= usize::MAX,
            self@.refs <= usize::MAX,
    {
        self.asinc.law_in_order();
        self.blocking.law_in_order();
    }

    /// Creates an executor that is sized to the machine it runs on.
    pub fn new() -> (executor: Self)
        ensures
            executor.inv(),
            executor@.is_default(),
            executor@.asinc.queues.locals.len() >= 1,
            executor@.blocking.limit == (4 * executor@.asinc.queues.locals.len()) as int % (
            usize::MAX + 1),
            executor@.blocking.queues.locals.len() == 0,
            executor@.refs == 1,
    {
        let cpus: usize = num_cpus();
        let (num_async, num_blocking) = Self::sizes(cpus);
        Self::with_workers(num_async, num_blocking)
    }

    /// How many workers an executor gets on a machine with that many
    /// processors.
    pub fn sizes(cpus: usize) -> (sizes: (usize, usize))
        ensures
            (sizes.0 as nat, sizes.1 as nat) == default_sizes(cpus),
            cpus >= 1 ==> sizes.0 == cpus,
            cpus == 0 ==> sizes.0 == 1,
            4 * sizes.0 <= usize::MAX ==> sizes.1 == 4 * sizes.0,
            sizes.1 == (4 * sizes.0) % (usize::MAX + 1),
    {
        let workers: usize = if cpus < 1 {
            1
        } else {
            cpus
        };
        proof {
            if workers * 4 <= usize::MAX {
                vstd::arithmetic::div_mod::lemma_small_mod(
                    (workers * 4) as nat,
                    usize::MAX as nat + 1,
                );
            }
        }
        (workers, workers.wrapping_mul(4))
    }

    /// Creates an executor with `num_async` workers that poll futures and up to
    /// `num_blocking` workers that may block, none of which is there yet.
    pub fn with_workers(num_async: usize, num_blocking: usize) -> (executor: Self)
        ensures
            executor.inv(),
            executor@ == ExecutorView::initial(num_async as nat, num_blocking as nat),
            executor@.asinc.queues.locals.len() == num_async,
            executor@.blocking.queues.locals.len() == 0,
            executor@.blocking.limit == num_blocking,
            executor@.asinc.queues.is_idle(),
            executor@.blocking.queues.is_idle(),
            executor@.refs == 1,
    {
        Executor {
            asinc: Pool::new(num_async, num_async),
            blocking: Pool::new(0, num_blocking),
            refs: 1,
        }
    }

    /// How many workers poll futures. They are numbered from 0.
    pub fn async_workers(&self) -> (workers: usize)
        ensures
            workers == self@.asinc.queues.locals.len(),
    {
        self.asinc.workers()
    }

    /// How many workers that may block there are. They are numbered from 0.
    pub fn blocking_workers(&self) -> (workers: usize)
        ensures
            workers == self@.blocking.queues.locals.len(),
    {
        self.blocking.workers()
    }

    /// How many workers that may block there may be.
    pub fn blocking_limit(&self) -> (limit: usize)
        ensures
            limit == self@.blocking.limit,
    {
        self.blocking.limit()
    }

    /// A thread that runs a future to completion has polled it once. `parking`
    /// is where that thread sleeps; the future's waker wakes it there.
    pub fn block_on<T>(polled: Polled<T>, parking: &mut Parking) -> (next: BlockOn<T>)
        requires
            polled is Pending ==> old(parking)@.waiting < usize::MAX,
        ensures
            (final(parking)@, next) == settles(polled, old(parking)@),
            old(parking)@.inv() ==> final(parking)@.inv(),
    {
        match polled {
            Polled::Ready(output) => BlockOn::Return(output),
            Polled::Pending => BlockOn::Park(parking.park()),
        }
    }

    /// Spawns a task that polls a future. Returns the number that stands for it
    /// in the queues and which of the sleeping workers are to be signalled.
    pub fn spawn(&mut self) -> (spawned: (usize, Notify))
        requires
            old(self).inv(),
        ensures
            final(self).inv(),
            (final(self)@, spawned.0, spawned.1) == old(self)@.spawn(),
    {
        let id: usize = self.asinc.allocate();
        (id, self.asinc.schedule(id))
    }

    /// Spawns a task that may block. Returns the number that stands for it in
    /// the queues and what has to be done to have it run.
    pub fn spawn_blocking(&mut self) -> (spawned: (usize, Launch))
        requires
            old(self).inv(),
        ensures
            final(self).inv(),
            (final(self)@, spawned.0, spawned.1) == old(self)@.spawn_blocking(),
    {
        let id: usize = self.blocking.allocate();
        (id, self.blocking.launch(id))
    }

    /// The waker of a task that polls a future was called: it is queued again.
    pub fn schedule(&mut self, id: usize) -> (notify: Notify)
        requires
            old(self).inv(),
        ensures
            final(self).inv(),
            (final(self)@.asinc, notify) == old(self)@.asinc.schedule(id),
            final(self)@ == (ExecutorView { asinc: final(self)@.asinc, ..old(self)@ }),
    {
        self.asinc.schedule(id)
    }

    /// The waker of a task that may block was called: it is queued again.
    pub fn schedule_blocking(&mut self, id: usize) -> (launch: Launch)
        requires
            old(self).inv(),
        ensures
            final(self).inv(),
            (final(self)@.blocking, launch) == old(self)@.blocking.launch(id),
            final(self)@ == (ExecutorView { blocking: final(self)@.blocking, ..old(self)@ }),
    {
        self.blocking.launch(id)
    }

    /// A worker that polls futures asks what to do next.
    pub fn async_worker(&mut self, worker: usize) -> (step: WorkerStep)
        requires
            old(self).inv(),
            worker < old(self)@.asinc.queues.locals.len(),
            old(self)@.asinc.parking.waiting < usize::MAX,
        ensures
            final(self).inv(),
            old(self)@.asinc.steps(
                worker as int,
                old(self)@.is_shut_down(),
                step,
                final(self)@.asinc,
            ),
            final(self)@ == (ExecutorView { asinc: final(self)@.asinc, ..old(self)@ }),
    {
        self.asinc.step(worker, self.refs == 0)
    }

    /// A worker that may block asks what to do next.
    pub fn blocking_worker(&mut self, worker: usize) -> (step: WorkerStep)
        requires
            old(self).inv(),
            worker < old(self)@.blocking.queues.locals.len(),
            old(self)@.blocking.parking.waiting < usize::MAX,
        ensures
            final(self).inv(),
            old(self)@.blocking.steps(
                worker as int,
                old(self)@.is_shut_down(),
                step,
                final(self)@.blocking,
            ),
            final(self)@ == (ExecutorView { blocking: final(self)@.blocking, ..old(self)@ }),
    {
        self.blocking.step(worker, self.refs == 0)
    }

    /// A worker that polls futures and waited is awake again.
    pub fn async_woken(&mut self)
        requires
            old(self).inv(),
            old(self)@.asinc.parking.waiting > 0,
        ensures
            final(self).inv(),
            final(self)@ == (ExecutorView { asinc: old(self)@.asinc.woken(), ..old(self)@ }),
    {
        self.asinc.woken();
    }

    /// A worker that may block and waited is awake again.
    pub fn blocking_woken(&mut self)
        requires
            old(self).inv(),
            old(self)@.blocking.parking.waiting > 0,
        ensures
            final(self).inv(),
            final(self)@ == (ExecutorView { blocking: old(self)@.blocking.woken(), ..old(self)@ }),
    {
        self.blocking.woken();
    }

    /// Someone who holds no handle asks for one. There is none to be had once
    /// the executor is shut down; the sleeping workers of the two pools that
    /// the error names are then to be signalled.
    pub fn upgrade(&mut self) -> (upgraded: Result<(), (Notify, Notify)>)
        requires
            old(self).inv(),
            old(self)@.refs < usize::MAX,
        ensures
            final(self).inv(),
            if old(self)@.is_shut_down() {
                &&& upgraded == Err::<(), (Notify, Notify)>((Notify::Everyone, Notify::Everyone))
                &&& final(self)@ == old(self)@
            } else {
                &&& upgraded == Ok::<(), (Notify, Notify)>(())
                &&& final(self)@ == old(self)@.retain()
            },
    {
        if self.refs == 0 {
            return Err(self.unpark_all());
        }
        self.refs = self.refs + 1;
        Ok(())
    }

    /// A handle is cloned.
    pub fn retain(&mut self)
        requires
            old(self).inv(),
            0 < old(self)@.refs < usize::MAX,
        ensures
            final(self).inv(),
            final(self)@ == old(self)@.retain(),
    {
        self.refs = self.refs + 1;
    }

    /// A handle is dropped. With the last one the executor is shut down. Returns
    /// which of the sleeping workers of the two pools are to be signalled.
    pub fn release(&mut self) -> (notify: (Notify, Notify))
        requires
            old(self).inv(),
            old(self)@.refs > 0,
        ensures
            final(self).inv(),
            (final(self)@, notify) == old(self)@.release(),
    {
        self.refs = self.refs - 1;
        if self.refs == 0 {
            self.unpark_all()
        } else {
            (Notify::Nobody, Notify::Nobody)
        }
    }

    /// Wakes every worker that sleeps, in either pool.
    fn unpark_all(&self) -> (notify: (Notify, Notify))
        ensures
            notify == (Notify::Everyone, Notify::Everyone),
    {
        (self.asinc.unpark_all(), self.blocking.unpark_all())
    }
}

impl Default for Executor {
    fn default() -> (executor: Self)
        ensures
            executor.inv(),
            executor@.is_default(),
            executor@.asinc.queues.locals.len() >= 1,
            executor@.blocking.limit == (4 * executor@.asinc.queues.locals.len()) as int % (
            usize::MAX + 1),
            executor@.blocking.queues.locals.len() == 0,
            executor@.refs == 1,
    {
        Executor::new()
    }
}

} // verus!

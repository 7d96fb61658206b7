//! A pool of workers and the tasks that are queued for it.
use crate::parking::{Notify, Park, Parking, ParkingView};
use crate::queue::{Queues, QueuesView, Steal};
use vstd::prelude::*;

verus! {

/// What a worker does next.
#[derive(Clone, Copy, Debug, PartialEq, Eq, Structural)]
pub enum WorkerStep {
    /// It runs the task of that number and then asks again.
    Run(usize),
    /// It asks again at once: looking for a task failed.
    Retry,
    /// It parks: it sleeps until it is signalled, unless a wake-up was left
    /// behind for it, and then asks again.
    Park(Park),
    /// It is done: there is nothing left to run and nothing more will come.
    Exit,
}

/// What has to be done about a task that a blocking worker is to run.
#[derive(Clone, Copy, Debug, PartialEq, Eq, Structural)]
pub enum Launch {
    /// A worker with this number has joined the pool and is to be started.
    Start(usize),
    /// These workers are to be signalled.
    Wake(Notify),
}

/// The state of a [`Pool`].
#[verifier::ext_equal]
pub struct PoolView {
    /// What is queued.
    pub queues: QueuesView,
    /// Where its workers sleep.
    pub parking: ParkingView,
    /// The number of the next task.
    pub task_id: usize,
    /// How many workers there may be.
    pub limit: nat,
}

/// The number after `id`; after the largest one the numbers start over.
pub open spec fn next_id(id: usize) -> usize {
    if id == usize::MAX {
        0
    } else {
        (id + 1) as usize
    }
}

impl PoolView {
    /// A wake-up is left behind only while no worker sleeps, and there are not
    /// more workers than there may be.
    pub open spec fn inv(self) -> bool {
        &&& self.parking.inv()
        &&& self.queues.locals.len() <= self.limit
    }

    /// A pool that has done nothing yet.
    pub open spec fn initial(workers: nat, limit: nat) -> PoolView {
        PoolView {
            queues: QueuesView {
                injected: Seq::empty(),
                locals: Seq::new(workers, |i: int| Seq::<usize>::empty()),
            },
            parking: ParkingView { skip: false, waiting: 0 },
            task_id: 0,
            limit,
        }
    }

    /// The pool after a task has been given its number.
    pub open spec fn allocate(self) -> PoolView {
        PoolView { task_id: next_id(self.task_id), ..self }
    }

    /// A task is queued and one worker woken.
    pub open spec fn schedule(self, task: usize) -> (PoolView, Notify) {
        let (parking, notify) = self.parking.unpark_one();
        (PoolView { queues: self.queues.push(task), parking, ..self }, notify)
    }

    /// Whether a task is reason to start another worker: none is asleep that
    /// could run it, and there may be one more.
    pub open spec fn wants_worker(self) -> bool {
        self.parking.waiting == 0 && self.queues.locals.len() < self.limit
    }

    /// A task is queued and either a worker is started or one is woken.
    pub open spec fn launch(self, task: usize) -> (PoolView, Launch) {
        if self.wants_worker() {
            (
                PoolView { queues: self.queues.push(task).add_worker(), ..self },
                Launch::Start(self.queues.locals.len() as usize),
            )
        } else {
            let (pool, notify) = self.schedule(task);
            (pool, Launch::Wake(notify))
        }
    }

    /// The pool after a worker that waited is awake again.
    pub open spec fn woken(self) -> PoolView {
        PoolView { parking: self.parking.woken(), ..self }
    }

    /// What a worker does next that has looked for a task: it runs what it has
    /// found, looks again if looking failed, and if there was nothing it parks,
    /// or is done if no more tasks will come.
    pub open spec fn decide(self, found: Steal, closed: bool) -> (PoolView, WorkerStep) {
        match found {
            Steal::Success(task) => (self, WorkerStep::Run(task)),
            Steal::Retry => (self, WorkerStep::Retry),
            Steal::Empty => if closed {
                (self, WorkerStep::Exit)
            } else {
                let (parking, next) = self.parking.park();
                (PoolView { parking, ..self }, WorkerStep::Park(next))
            },
        }
    }

    /// What a worker does next, and what becomes of the pool. `closed` says
    /// that no more tasks will come.
    pub open spec fn steps(
        self,
        worker: int,
        closed: bool,
        step: WorkerStep,
        after: PoolView,
    ) -> bool {
        match step {
            WorkerStep::Run(task) => {
                &&& self.queues.finds(worker, Steal::Success(task), after.queues)
                &&& after == PoolView { queues: after.queues, ..self }
            },
            WorkerStep::Retry => {
                &&& self.queues.finds(worker, Steal::Retry, after.queues)
                &&& after == self
            },
            WorkerStep::Park(next) => {
                &&& self.queues.is_idle()
                &&& !closed
                &&& next == self.parking.park().1
                &&& after == PoolView { parking: self.parking.park().0, ..self }
            },
            WorkerStep::Exit => {
                &&& self.queues.is_idle()
                &&& closed
                &&& after == self
            },
        }
    }
}

/// A pool of workers: the tasks that are queued for them, and where they sleep
/// when there are none.
pub struct Pool {
    queues: Queues,
    parking: Parking,
    task_id: usize,
    limit: usize,
}

impl View for Pool {
    type V = PoolView;

    closed spec fn view(&self) -> PoolView {
        PoolView {
            queues: self.queues@,
            parking: self.parking@,
            task_id: self.task_id,
            limit: self.limit as nat,
        }
    }
}

impl Pool {
    /// The queues are in order, and so is what they add up to.
    pub closed spec fn inv(self) -> bool {
        &&& self.queues.inv()
        &&& self@.inv()
    }

    /// What is known of the state of every pool in order.
    pub proof fn law_in_order(self)
        requires
            self.inv(),
        ensures
            self@.inv(),
            self@.limit <= usize::MAX,
    {
    }

    /// Creates a pool of that many workers, to which more may be added until
    /// there are `limit` of them.
    pub fn new(workers: usize, limit: usize) -> (pool: Self)
        requires
            workers <= limit,
        ensures
            pool.inv(),
            pool@ == PoolView::initial(workers as nat, limit as nat),
    {
        let pool = Pool {
            queues: Queues::new(workers),
            parking: Parking::new(),
            task_id: 0,
            limit,
        };
        assert(pool@ =~= PoolView::initial(workers as nat, limit as nat));
        pool
    }

    /// How many workers there are.
    pub fn workers(&self) -> (workers: usize)
        ensures
            workers == self@.queues.locals.len(),
    {
        self.queues.workers()
    }

    /// How many workers there may be.
    pub fn limit(&self) -> (limit: usize)
        ensures
            limit == self@.limit,
    {
        self.limit
    }

    /// Gives a new task its number.
    pub fn allocate(&mut self) -> (id: usize)
        requires
            old(self).inv(),
        ensures
            final(self).inv(),
            id == old(self)@.task_id,
            final(self)@ == old(self)@.allocate(),
            id < usize::MAX ==> final(self)@.task_id == id + 1,
            id == usize::MAX ==> final(self)@.task_id == 0,
            final(self)@.queues == old(self)@.queues,
    {
        let id: usize = self.task_id;
        self.task_id = id.wrapping_add(1);
        id
    }

    /// Queues a task and wakes one worker.
    pub fn schedule(&mut self, task: usize) -> (notify: Notify)
        requires
            old(self).inv(),
        ensures
            final(self).inv(),
            (final(self)@, notify) == old(self)@.schedule(task),
    {
        self.queues.push(task);
        self.parking.unpark_one()
    }

    /// Queues a task. If no worker is asleep and there may be one more, a
    /// worker joins; otherwise one worker is woken.
    pub fn launch(&mut self, task: usize) -> (launch: Launch)
        requires
            old(self).inv(),
        ensures
            final(self).inv(),
            (final(self)@, launch) == old(self)@.launch(task),
    {
        self.queues.push(task);
        let workers: usize = self.queues.workers();
        if self.parking.is_empty() && workers < self.limit {
            self.queues.add_worker();
            Launch::Start(workers)
        } else {
            Launch::Wake(self.parking.unpark_one())
        }
    }

    /// A worker asks what to do next. `closed` says that no more tasks will
    /// come.
    pub fn step(&mut self, worker: usize, closed: bool) -> (step: WorkerStep)
        requires
            old(self).inv(),
            worker < old(self)@.queues.locals.len(),
            old(self)@.parking.waiting < usize::MAX,
        ensures
            final(self).inv(),
            old(self)@.steps(worker as int, closed, step, final(self)@),
    {
        let found = self.queues.find(worker);
        self.decide(found, closed)
    }

    /// Decides what a worker does next that has looked for a task. `closed`
    /// says that no more tasks will come.
    pub fn decide(&mut self, found: Steal, closed: bool) -> (step: WorkerStep)
        requires
            old(self).inv(),
            old(self)@.parking.waiting < usize::MAX,
        ensures
            final(self).inv(),
            (final(self)@, step) == old(self)@.decide(found, closed),
    {
        match found {
            Steal::Success(task) => WorkerStep::Run(task),
            Steal::Retry => WorkerStep::Retry,
            Steal::Empty => {
                if closed {
                    WorkerStep::Exit
                } else {
                    WorkerStep::Park(self.parking.park())
                }
            },
        }
    }

    /// A worker that waited is awake again.
    pub fn woken(&mut self)
        requires
            old(self).inv(),
            old(self)@.parking.waiting > 0,
        ensures
            final(self).inv(),
            final(self)@ == old(self)@.woken(),
    {
        self.parking.woken();
    }

    /// Wakes every worker that sleeps.
    pub fn unpark_all(&self) -> (notify: Notify)
        ensures
            notify == Notify::Everyone,
    {
        self.parking.unpark_all()
    }
}

} // verus!

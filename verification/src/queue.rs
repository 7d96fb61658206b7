//! The queues of a pool of workers.
use crossbeam_deque::{Injector, Worker};
use vstd::prelude::*;

verus! {

/// `crossbeam_deque::Injector`, the queue that new tasks enter.
#[verifier::external_type_specification]
#[verifier::external_body]
#[verifier::reject_recursive_types(T)]
pub struct ExInjector<T>(crossbeam_deque::Injector<T>);

/// `crossbeam_deque::Worker`, the queue that belongs to one worker.
#[verifier::external_type_specification]
#[verifier::external_body]
#[verifier::reject_recursive_types(T)]
pub struct ExWorker<T>(crossbeam_deque::Worker<T>);

/// The tasks in an injector, the one that entered first at the front.
pub uninterp spec fn injected(injector: Injector<usize>) -> Seq<usize>;

/// The tasks in a worker's queue, the one that entered first at the front.
pub uninterp spec fn local(worker: Worker<usize>) -> Seq<usize>;

/// Whether a worker's queue was made to be popped at the front.
pub uninterp spec fn is_fifo(worker: Worker<usize>) -> bool;

/// The outcome of looking for a task in a queue that others may be using.
#[derive(Clone, Copy, Debug, PartialEq, Eq, Structural)]
pub enum Steal {
    /// There was nothing in the queue.
    Empty,
    /// The task of that number was taken out.
    Success(usize),
    /// The attempt failed and has to be repeated.
    Retry,
}

/// Calls `Injector::new`: the new queue is empty.
#[verifier::external_body]
fn new_injector() -> (injector: Injector<usize>)
    ensures
        injected(injector) == Seq::<usize>::empty(),
{
    Injector::new()
}

/// Calls `Injector::push`: the task goes to the back of the queue. The queue is
/// borrowed exclusively, so nobody else pushes or steals meanwhile.
#[verifier::external_body]
fn inject(injector: &mut Injector<usize>, task: usize)
    ensures
        injected(*final(injector)) == injected(*old(injector)).push(task),
{
    injector.push(task)
}

/// Calls `Injector::steal_batch_and_pop`: the task at the front is handed out,
/// and some of those that follow it, in the same order, move to the back of the
/// worker's queue. How many is not specified. It comes back empty-handed with
/// `Empty` exactly if the injector is empty; with `Retry` it may do so at any
/// other time, because the exchange that it relies on may fail spuriously.
#[verifier::external_body]
fn steal_batch_and_pop(injector: &mut Injector<usize>, worker: &mut Worker<usize>) -> (found: Steal)
    requires
        is_fifo(*old(worker)),
    ensures
        is_fifo(*final(worker)),
        found is Empty <==> injected(*old(injector)).len() == 0,
        match found {
            Steal::Success(task) => exists|n: int|
                #![trigger injected(*old(injector)).skip(n)]
                {
                    &&& 1 <= n <= injected(*old(injector)).len()
                    &&& task == injected(*old(injector))[0]
                    &&& injected(*final(injector)) == injected(*old(injector)).skip(n)
                    &&& local(*final(worker)) == local(*old(worker)) + injected(
                        *old(injector),
                    ).subrange(1, n)
                },
            _ => {
                &&& injected(*final(injector)) == injected(*old(injector))
                &&& local(*final(worker)) == local(*old(worker))
            },
        },
{
    match injector.steal_batch_and_pop(worker) {
        crossbeam_deque::Steal::Empty => Steal::Empty,
        crossbeam_deque::Steal::Success(task) => Steal::Success(task),
        crossbeam_deque::Steal::Retry => Steal::Retry,
    }
}

/// Calls `Worker::new_fifo`: the new queue is empty and popped at the front.
#[verifier::external_body]
fn new_fifo() -> (worker: Worker<usize>)
    ensures
        is_fifo(worker),
        local(worker) == Seq::<usize>::empty(),
{
    Worker::new_fifo()
}

/// Calls `Worker::pop` on a queue that is popped at the front: the task at the
/// front is handed out, if there is one. The queue is borrowed exclusively, so
/// nobody else steals from it meanwhile.
#[verifier::external_body]
fn pop(worker: &mut Worker<usize>) -> (task: Option<usize>)
    requires
        is_fifo(*old(worker)),
    ensures
        is_fifo(*final(worker)),
        match task {
            Some(task) => {
                &&& local(*old(worker)).len() > 0
                &&& task == local(*old(worker))[0]
                &&& local(*final(worker)) == local(*old(worker)).skip(1)
            },
            None => {
                &&& local(*old(worker)).len() == 0
                &&& local(*final(worker)) == local(*old(worker))
            },
        },
{
    worker.pop()
}

/// Calls `Stealer::steal` on a stealer of the worker's queue: the task at the
/// front is handed out, if there is one. It need not be repeated: the queue is
/// borrowed exclusively, so nobody else gets hold of that task first, and the
/// exchange that it relies on does not fail spuriously.
#[verifier::external_body]
fn steal(worker: &mut Worker<usize>) -> (found: Steal)
    ensures
        is_fifo(*final(worker)) == is_fifo(*old(worker)),
        match found {
            Steal::Success(task) => {
                &&& local(*old(worker)).len() > 0
                &&& task == local(*old(worker))[0]
                &&& local(*final(worker)) == local(*old(worker)).skip(1)
            },
            Steal::Empty => {
                &&& local(*old(worker)).len() == 0
                &&& local(*final(worker)) == local(*old(worker))
            },
            Steal::Retry => false,
        },
{
    match worker.stealer().steal() {
        crossbeam_deque::Steal::Empty => Steal::Empty,
        crossbeam_deque::Steal::Success(task) => Steal::Success(task),
        crossbeam_deque::Steal::Retry => Steal::Retry,
    }
}

impl Steal {
    /// What comes of a first attempt and a second one that is made only if the
    /// first did not take a task out.
    pub open spec fn or_else_spec(self, second: Steal) -> Steal {
        if self is Success || (self is Retry && second is Empty) {
            self
        } else {
            second
        }
    }

    /// Joins the outcome of an attempt with that of a second one: a task if
    /// one of them took one out, else `Retry` if one of them has to be
    /// repeated, else `Empty`. Where both hold a task, the first one's counts.
    pub fn or_else(self, second: Steal) -> (found: Steal)
        ensures
            found == self.or_else_spec(second),
    {
        match self {
            Steal::Empty => second,
            Steal::Success(task) => Steal::Success(task),
            Steal::Retry => match second {
                Steal::Success(task) => Steal::Success(task),
                _ => Steal::Retry,
            },
        }
    }
}

/// The tasks that are queued, and where.
#[verifier::ext_equal]
pub struct QueuesView {
    /// Those that no worker has taken on yet.
    pub injected: Seq<usize>,
    /// Those that each of the workers has taken on.
    pub locals: Seq<Seq<usize>>,
}

impl QueuesView {
    /// No worker has any task of its own.
    pub open spec fn no_locals(self) -> bool {
        forall|i: int| 0 <= i < self.locals.len() ==> (#[trigger] self.locals[i]).len() == 0
    }

    /// Nothing is queued anywhere.
    pub open spec fn is_idle(self) -> bool {
        self.injected.len() == 0 && self.no_locals()
    }

    /// The queues after a task has entered.
    pub open spec fn push(self, task: usize) -> QueuesView {
        QueuesView { injected: self.injected.push(task), ..self }
    }

    /// The queues after a worker has joined.
    pub open spec fn add_worker(self) -> QueuesView {
        QueuesView { locals: self.locals.push(Seq::empty()), ..self }
    }

    /// The worker takes the first task of its own.
    pub open spec fn takes_own(self, worker: int, task: usize, after: QueuesView) -> bool {
        &&& self.locals[worker].len() > 0
        &&& task == self.locals[worker][0]
        &&& after == QueuesView {
            locals: self.locals.update(worker, self.locals[worker].skip(1)),
            ..self
        }
    }

    /// The worker has no task of its own. It takes the first `n` tasks that
    /// nobody has taken on, and starts with the first of them.
    pub open spec fn takes_injected(
        self,
        worker: int,
        n: int,
        task: usize,
        after: QueuesView,
    ) -> bool {
        &&& self.locals[worker].len() == 0
        &&& 1 <= n <= self.injected.len()
        &&& task == self.injected[0]
        &&& after == QueuesView {
            injected: self.injected.skip(n),
            locals: self.locals.update(worker, self.injected.subrange(1, n)),
        }
    }

    /// What a worker finds in its own queue or, if that is empty, in the
    /// injector, and what is left in the queues. Those of its peers it leaves
    /// alone.
    ///
    /// `Empty` says that there was nothing in either, `Retry` that there is
    /// something in the injector and getting at it failed.
    pub open spec fn asks(self, worker: int, first: Steal, after: QueuesView) -> bool {
        match first {
            Steal::Success(task) => {
                ||| self.takes_own(worker, task, after)
                ||| exists|n: int| #[trigger] self.takes_injected(worker, n, task, after)
            },
            Steal::Empty => {
                &&& self.locals[worker].len() == 0
                &&& self.injected.len() == 0
                &&& after == self
            },
            Steal::Retry => {
                &&& self.locals[worker].len() == 0
                &&& self.injected.len() > 0
                &&& after == self
            },
        }
    }

    /// The first task of `peer`, the first worker that has any, is taken.
    pub open spec fn takes_peer(self, peer: int, task: usize, after: QueuesView) -> bool {
        &&& 0 <= peer < self.locals.len()
        &&& forall|i: int| 0 <= i < peer ==> (#[trigger] self.locals[i]).len() == 0
        &&& self.takes_own(peer, task, after)
    }

    /// What is found in the queues of the workers, and what is left there: the
    /// first task of the first worker that has any.
    pub open spec fn steals(self, second: Steal, after: QueuesView) -> bool {
        match second {
            Steal::Success(task) => exists|peer: int| #[trigger]
                self.takes_peer(peer, task, after),
            Steal::Empty => self.no_locals() && after == self,
            Steal::Retry => false,
        }
    }

    /// What a worker finds that was given the answer `first` by its own queue
    /// and the injector. If that is a task, it is what it finds and its peers
    /// are left alone. Otherwise it takes a task from the first worker that has
    /// any; if none has, it has to look again exactly if `first` says so.
    pub open spec fn finds_after(self, first: Steal, found: Steal, after: QueuesView) -> bool {
        if first is Success {
            found == first && after == self
        } else {
            exists|second: Steal| #[trigger]
                self.steals(second, after) && found == first.or_else_spec(second)
        }
    }

    /// What a worker finds, and what is left in the queues. It asks its own
    /// queue and then the injector, and only if neither gives it a task, the
    /// queues of the workers.
    ///
    /// The injector may refuse to give a task though it holds some. Whether it
    /// did is up to the machine and leaves no trace in the queues; what follows
    /// from either answer is told by `finds_after`.
    pub open spec fn finds(self, worker: int, found: Steal, after: QueuesView) -> bool {
        exists|first: Steal, between: QueuesView| #[trigger]
            self.asks(worker, first, between) && between.finds_after(first, found, after)
    }
}

/// The queues of a pool: one that new tasks enter, and one for each worker.
pub struct Queues {
    injector: Injector<usize>,
    workers: Vec<Worker<usize>>,
}

impl View for Queues {
    type V = QueuesView;

    closed spec fn view(&self) -> QueuesView {
        QueuesView {
            injected: injected(self.injector),
            locals: Seq::new(self.workers@.len(), |i: int| local(self.workers@[i])),
        }
    }
}

impl Queues {
    /// Every worker's queue is popped at the front.
    pub closed spec fn inv(self) -> bool {
        forall|i: int| 0 <= i < self.workers@.len() ==> is_fifo(#[trigger] self.workers@[i])
    }

    /// Creates the queues of a pool with that many workers, all of them empty.
    pub fn new(workers: usize) -> (queues: Self)
        ensures
            queues.inv(),
            queues@.injected == Seq::<usize>::empty(),
            queues@.locals == Seq::new(workers as nat, |i: int| Seq::<usize>::empty()),
    {
        let mut all: Vec<Worker<usize>> = Vec::new();
        for i in 0..workers
            invariant
                all@.len() == i,
                forall|j: int|
                    0 <= j < i ==> is_fifo(#[trigger] all@[j]) && local(all@[j]) == Seq::<
                        usize,
                    >::empty(),
        {
            all.push(new_fifo());
        }
        Queues { injector: new_injector(), workers: all }
    }

    /// How many workers there are.
    pub fn workers(&self) -> (workers: usize)
        ensures
            workers == self@.locals.len(),
    {
        self.workers.len()
    }

    /// Adds a worker that has no tasks yet.
    pub fn add_worker(&mut self)
        requires
            old(self).inv(),
        ensures
            final(self).inv(),
            final(self)@ == old(self)@.add_worker(),
    {
        self.workers.push(new_fifo());
        assert(self@ =~= old(self)@.add_worker());
    }

    /// A task enters.
    pub fn push(&mut self, task: usize)
        requires
            old(self).inv(),
        ensures
            final(self).inv(),
            final(self)@ == old(self)@.push(task),
    {
        inject(&mut self.injector, task);
        assert(self@ =~= old(self)@.push(task));
    }

    /// A worker asks its own queue for a task and, if that is empty, the
    /// injector, from which it may take further tasks on at the same time.
    pub fn ask(&mut self, worker: usize) -> (first: Steal)
        requires
            old(self).inv(),
            worker < old(self)@.locals.len(),
        ensures
            final(self).inv(),
            old(self)@.asks(worker as int, first, final(self)@),
    {
        if let Some(task) = pop(&mut self.workers[worker]) {
            assert(self@.locals =~= old(self)@.locals.update(
                worker as int,
                old(self)@.locals[worker as int].skip(1),
            ));
            return Steal::Success(task);
        }
        assert(self@ =~= old(self)@);
        let first = steal_batch_and_pop(&mut self.injector, &mut self.workers[worker]);
        proof {
            let before = old(self)@;
            if let Steal::Success(task) = first {
                let n = choose|n: int|
                    #![trigger before.injected.skip(n)]
                    {
                        &&& 1 <= n <= before.injected.len()
                        &&& task == before.injected[0]
                        &&& self@.injected == before.injected.skip(n)
                        &&& self@.locals[worker as int] == before.locals[worker as int]
                            + before.injected.subrange(1, n)
                    };
                assert(self@.locals =~= before.locals.update(
                    worker as int,
                    before.injected.subrange(1, n),
                ));
                assert(before.takes_injected(worker as int, n, task, self@));
            } else {
                assert(self@ =~= before);
            }
        }
        first
    }

    /// Takes a task from the first worker that has any.
    pub fn steal_from_workers(&mut self) -> (second: Steal)
        requires
            old(self).inv(),
        ensures
            final(self).inv(),
            old(self)@.steals(second, final(self)@),
    {
        let count: usize = self.workers.len();
        for i in 0..count
            invariant
                self.inv(),
                count == self.workers@.len(),
                self@ == old(self)@,
                forall|j: int| 0 <= j < i ==> (#[trigger] self@.locals[j]).len() == 0,
        {
            let second = steal(&mut self.workers[i]);
            if let Steal::Success(task) = second {
                assert(self@.locals =~= old(self)@.locals.update(
                    i as int,
                    old(self)@.locals[i as int].skip(1),
                ));
                assert(old(self)@.takes_peer(i as int, task, self@));
                return second;
            }
            assert(self@ =~= old(self)@);
        }
        Steal::Empty
    }

    /// A worker that was given the answer `first` by its own queue and the
    /// injector looks further, if it was not given a task.
    pub fn find_after(&mut self, first: Steal) -> (found: Steal)
        requires
            old(self).inv(),
        ensures
            final(self).inv(),
            old(self)@.finds_after(first, found, final(self)@),
    {
        if let Steal::Success(_) = first {
            return first;
        }
        let second = self.steal_from_workers();
        first.or_else(second)
    }

    /// A worker looks for its next task.
    pub fn find(&mut self, worker: usize) -> (found: Steal)
        requires
            old(self).inv(),
            worker < old(self)@.locals.len(),
        ensures
            final(self).inv(),
            old(self)@.finds(worker as int, found, final(self)@),
    {
        let first = self.ask(worker);
        let ghost between = self@;
        let found = self.find_after(first);
        assert(old(self)@.asks(worker as int, first, between));
        found
    }
}

} // verus!

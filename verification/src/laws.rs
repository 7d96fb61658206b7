//! What holds of several operations together.
use crate::executor::ExecutorView;
use crate::parking::{Notify, Park, ParkingView};
use crate::pool::{Launch, PoolView, WorkerStep};
use crate::queue::{QueuesView, Steal};
use vstd::multiset::Multiset;
use vstd::prelude::*;

verus! {

/// The tasks that all workers together have taken on.
pub open spec fn taken_on(locals: Seq<Seq<usize>>) -> Multiset<usize>
    decreases locals.len(),
{
    if locals.len() == 0 {
        Multiset::empty()
    } else {
        taken_on(locals.drop_last()).add(locals.last().to_multiset())
    }
}

impl QueuesView {
    /// The tasks that are queued, wherever they are.
    pub open spec fn tasks(self) -> Multiset<usize> {
        self.injected.to_multiset().add(taken_on(self.locals))
    }
}

/// Replacing what one worker has taken on.
proof fn lemma_taken_on_update(locals: Seq<Seq<usize>>, worker: int, tasks: Seq<usize>)
    requires
        0 <= worker < locals.len(),
    ensures
        taken_on(locals.update(worker, tasks)).add(locals[worker].to_multiset()) == taken_on(
            locals,
        ).add(tasks.to_multiset()),
    decreases locals.len(),
{
    let updated = locals.update(worker, tasks);
    if worker == locals.len() - 1 {
        assert(updated.drop_last() =~= locals.drop_last());
    } else {
        let (before, after) = (locals.drop_last(), updated.drop_last());
        lemma_taken_on_update(before, worker, tasks);
        assert(after =~= before.update(worker, tasks));
        assert forall|task: usize| #[trigger]
            taken_on(after).count(task) + locals[worker].to_multiset().count(task) == taken_on(
                before,
            ).count(task) + tasks.to_multiset().count(task) by {
            assert(taken_on(after).add(locals[worker].to_multiset()).count(task) == taken_on(
                before,
            ).add(tasks.to_multiset()).count(task));
        }
    }
    assert(taken_on(updated).add(locals[worker].to_multiset()) =~= taken_on(locals).add(
        tasks.to_multiset(),
    ));
}

/// A sequence of tasks is its first task and the others.
proof fn lemma_first_task(tasks: Seq<usize>)
    requires
        tasks.len() > 0,
    ensures
        tasks.to_multiset() == tasks.skip(1).to_multiset().insert(tasks[0]),
{
    broadcast use vstd::multiset::group_multiset_axioms;
    broadcast use vstd::seq_lib::group_to_multiset_ensures;

    assert(tasks.remove(0) =~= tasks.skip(1));
    assert(tasks.to_multiset().contains(tasks[0])) by {
        assert(tasks.contains(tasks[0]));
    }
    assert(tasks.to_multiset() =~= tasks.skip(1).to_multiset().insert(tasks[0]));
}

/// A task that enters is queued once more than before, and no other task is.
pub proof fn law_push_adds_one(queues: QueuesView, task: usize)
    ensures
        queues.push(task).tasks() == queues.tasks().insert(task),
{
    broadcast use vstd::multiset::group_multiset_axioms;
    broadcast use vstd::seq_lib::group_to_multiset_ensures;

    assert(queues.push(task).tasks() =~= queues.tasks().insert(task));
}

/// A worker that joins changes nothing about what is queued.
pub proof fn law_add_worker_adds_none(queues: QueuesView)
    ensures
        queues.add_worker().tasks() == queues.tasks(),
{
    broadcast use vstd::seq_lib::group_to_multiset_ensures;

    let locals = queues.add_worker().locals;
    assert(locals.drop_last() =~= queues.locals);
    assert(Seq::<usize>::empty().to_multiset() =~= Multiset::empty());
    assert(taken_on(locals) =~= taken_on(queues.locals));
}

/// A worker that finds a task takes that one out of the queues, once, and no
/// other. A worker that finds none leaves what is queued as it is.
pub proof fn law_find_takes_one(queues: QueuesView, worker: int, found: Steal, after: QueuesView)
    requires
        0 <= worker < queues.locals.len(),
        queues.finds(worker, found, after),
    ensures
        match found {
            Steal::Success(task) => queues.tasks() == after.tasks().insert(task),
            _ => queues.tasks() == after.tasks(),
        },
        after.locals.len() == queues.locals.len(),
{
    let (first, between) = choose|first: Steal, between: QueuesView| #[trigger]
        queues.asks(worker, first, between) && between.finds_after(first, found, after);
    if first is Success {
        lemma_ask_takes_one(queues, worker, first, between);
    } else if let Steal::Success(task) = found {
        let peer = choose|peer: int| #[trigger] queues.takes_peer(peer, task, after);
        lemma_takes_own(queues, peer, task, after);
    }
}

/// What a worker finds follows from what is queued, but for an injector that
/// refuses to give a task. The worker takes a task of its own if it has one. It
/// comes away with nothing exactly if nothing is queued, and has to look again
/// only if there are tasks in the injector and none elsewhere. A task of a peer
/// it takes only if it has none of its own, and then from the first worker that
/// has any.
pub proof fn law_what_is_found(queues: QueuesView, worker: int, found: Steal, after: QueuesView)
    requires
        0 <= worker < queues.locals.len(),
        queues.finds(worker, found, after),
    ensures
        queues.locals[worker].len() > 0 ==> (found matches Steal::Success(task)
            && queues.takes_own(worker, task, after)),
        found is Empty <==> queues.is_idle(),
        found is Retry ==> queues.injected.len() > 0 && queues.no_locals(),
        !(found is Success) ==> after == queues,
        found matches Steal::Success(task) ==> {
            ||| queues.takes_own(worker, task, after)
            ||| exists|n: int| #[trigger] queues.takes_injected(worker, n, task, after)
            ||| queues.locals[worker].len() == 0 && exists|peer: int| #[trigger]
                queues.takes_peer(peer, task, after)
        },
{
}

/// A worker that is given a task by its own queue or by the injector takes one
/// task out of the queues.
pub proof fn lemma_ask_takes_one(
    queues: QueuesView,
    worker: int,
    first: Steal,
    after: QueuesView,
)
    requires
        0 <= worker < queues.locals.len(),
        queues.asks(worker, first, after),
    ensures
        match first {
            Steal::Success(task) => queues.tasks() == after.tasks().insert(task),
            _ => queues.tasks() == after.tasks(),
        },
        after.locals.len() == queues.locals.len(),
{
    broadcast use vstd::multiset::group_multiset_axioms;
    broadcast use vstd::seq_lib::group_to_multiset_ensures;

    if let Steal::Success(task) = first {
        if queues.takes_own(worker, task, after) {
            lemma_takes_own(queues, worker, task, after);
        } else {
            let n = choose|n: int| #[trigger] queues.takes_injected(worker, n, task, after);
            let batch = queues.injected.subrange(1, n);
            lemma_taken_on_update(queues.locals, worker, batch);
            lemma_first_task(queues.injected);
            assert(queues.injected.skip(1) =~= batch + queues.injected.skip(n));
            vstd::seq_lib::lemma_multiset_commutative(batch, queues.injected.skip(n));
            assert(queues.locals[worker] =~= Seq::empty());
            assert(Seq::<usize>::empty().to_multiset() =~= Multiset::empty());
            assert(taken_on(after.locals) =~= taken_on(queues.locals).add(batch.to_multiset()));
            assert(queues.tasks() =~= after.tasks().insert(task));
        }
    }
}

/// Taking the first task of a worker takes one task out of the queues.
pub proof fn lemma_takes_own(queues: QueuesView, worker: int, task: usize, after: QueuesView)
    requires
        0 <= worker < queues.locals.len(),
        queues.takes_own(worker, task, after),
    ensures
        queues.tasks() == after.tasks().insert(task),
{
    broadcast use vstd::multiset::group_multiset_axioms;

    let own = queues.locals[worker];
    lemma_taken_on_update(queues.locals, worker, own.skip(1));
    lemma_first_task(own);
    let rest = own.skip(1).to_multiset();
    assert(taken_on(after.locals).add(rest.insert(task)) == taken_on(queues.locals).add(rest));
    assert(taken_on(queues.locals) =~= taken_on(after.locals).insert(task)) by {
        assert forall|t: usize|
            taken_on(queues.locals).count(t) == #[trigger] taken_on(after.locals).insert(
                task,
            ).count(t) by {
            assert(taken_on(after.locals).add(rest.insert(task)).count(t) == taken_on(
                queues.locals,
            ).add(rest).count(t));
        }
    }
    assert(queues.tasks() =~= after.tasks().insert(task));
}

/// The order in which the only worker of a pool comes to the tasks.
pub open spec fn line(queues: QueuesView) -> Seq<usize> {
    queues.locals[0] + queues.injected
}

/// In a pool of one worker tasks are run in the order in which they entered: a
/// task that enters goes to the end of the line, and the worker takes the one
/// at its front.
pub proof fn law_one_worker_first_in_first_out(
    queues: QueuesView,
    entering: usize,
    found: Steal,
    after: QueuesView,
)
    requires
        queues.locals.len() == 1,
        queues.finds(0, found, after),
    ensures
        line(queues.push(entering)) == line(queues).push(entering),
        match found {
            Steal::Success(task) => line(queues).len() > 0 && task == line(queues)[0]
                && line(after) == line(queues).skip(1),
            Steal::Empty => line(queues).len() == 0,
            Steal::Retry => line(queues).len() > 0 && line(after) == line(queues),
        },
{
    assert(line(queues.push(entering)) =~= line(queues).push(entering));
    if let Steal::Success(task) = found {
        assert(line(after) =~= line(queues).skip(1));
    }
}

/// A wake-up is never lost: either a waiting thread is signalled, or the next
/// thread that parks does not sleep.
pub proof fn law_wake_up_is_not_lost(parking: ParkingView)
    requires
        parking.inv(),
    ensures
        parking.waiting > 0 ==> parking.unpark_one().1 == Notify::One,
        parking.waiting == 0 ==> parking.unpark_one().0.park().1 == Park::Skip,
{
}

/// Wake-ups that nobody waits for do not add up: a second one changes nothing,
/// and only one thread goes without sleep on account of them.
pub proof fn law_wake_ups_do_not_add_up(parking: ParkingView)
    requires
        parking.inv(),
        parking.waiting == 0,
    ensures
        parking.unpark_one().0.unpark_one() == (parking.unpark_one().0, Notify::Nobody),
        parking.unpark_one().0.park().0.park().1 == Park::Wait,
{
}

/// A thread that waited and woke up leaves everything as it found it.
pub proof fn law_waiting_leaves_no_trace(parking: ParkingView)
    requires
        parking.park().1 == Park::Wait,
    ensures
        parking.park().0.woken() == parking,
{
}

/// A blocking worker is started only while none sleeps, it gets the next number
/// in turn, and there are never more of them than there may be. If none is
/// started, the task is announced to the workers that are there.
pub proof fn law_workers_are_started_when_needed(pool: PoolView, task: usize)
    requires
        pool.inv(),
        pool.limit <= usize::MAX,
    ensures
        pool.launch(task).0.inv(),
        match pool.launch(task).1 {
            Launch::Start(worker) => {
                &&& pool.parking.waiting == 0
                &&& worker == pool.queues.locals.len() < pool.limit
                &&& pool.launch(task).0.queues.locals.len() == worker + 1
            },
            Launch::Wake(notify) => {
                &&& pool.parking.waiting > 0 || pool.queues.locals.len() == pool.limit
                &&& pool.launch(task).0.queues.locals.len() == pool.queues.locals.len()
                &&& notify == pool.parking.unpark_one().1
            },
        },
{
}

/// Whatever a worker is told to do: a task that it is to run is taken out of the
/// queues once, and nothing else is; if it is not to run any, nothing is taken
/// out. It is told to park only if nothing is queued anywhere and more tasks may
/// come, and to be done only if nothing is queued and none will. An attempt that
/// failed is never taken for empty queues: it is repeated. Only a worker that
/// parks changes anything about where workers sleep.
pub proof fn law_worker_step(
    pool: PoolView,
    worker: int,
    closed: bool,
    step: WorkerStep,
    after: PoolView,
)
    requires
        0 <= worker < pool.queues.locals.len(),
        pool.steps(worker, closed, step, after),
    ensures
        match step {
            WorkerStep::Run(task) => pool.queues.tasks() == after.queues.tasks().insert(task),
            _ => after.queues == pool.queues,
        },
        step is Park ==> pool.queues.is_idle() && !closed,
        step is Exit ==> pool.queues.is_idle() && closed,
        step is Run || step is Retry <==> !pool.queues.is_idle(),
        step is Retry ==> pool.queues.injected.len() > 0,
        !(step is Park) ==> after.parking == pool.parking,
        after.queues.locals.len() == pool.queues.locals.len(),
        after.task_id == pool.task_id,
        after.limit == pool.limit,
{
    if let WorkerStep::Run(task) = step {
        law_find_takes_one(pool.queues, worker, Steal::Success(task), after.queues);
        law_what_is_found(pool.queues, worker, Steal::Success(task), after.queues);
    }
}

/// Where nothing is queued there are no tasks.
pub proof fn lemma_idle_has_no_tasks(queues: QueuesView)
    requires
        queues.is_idle(),
    ensures
        queues.tasks().len() == 0,
    decreases queues.locals.len(),
{
    broadcast use vstd::seq_lib::group_to_multiset_ensures;

    assert(queues.injected.to_multiset().len() == 0);
    if queues.locals.len() > 0 {
        let fewer = QueuesView { locals: queues.locals.drop_last(), ..queues };
        assert forall|i: int| 0 <= i < fewer.locals.len() implies (
        #[trigger] fewer.locals[i]).len() == 0 by {
            assert(queues.locals[i].len() == 0);
        }
        lemma_idle_has_no_tasks(fewer);
        assert(queues.locals.last().len() == 0);
        assert(queues.locals.last().to_multiset().len() == 0);
    }
}

/// The number that the n-th task gets after one that got `first`.
pub open spec fn nth_id(first: usize, n: nat) -> usize
    decreases n,
{
    if n == 0 {
        first
    } else {
        crate::pool::next_id(nth_id(first, (n - 1) as nat))
    }
}

proof fn lemma_nth_id(first: usize, n: nat)
    requires
        n <= usize::MAX,
    ensures
        nth_id(first, n) == if first + n <= usize::MAX {
            first + n
        } else {
            first + n - usize::MAX - 1
        },
    decreases n,
{
    if n > 0 {
        lemma_nth_id(first, (n - 1) as nat);
    }
}

/// Two tasks have the same number only if as many tasks as there are numbers
/// were spawned from the one up to the other.
pub proof fn law_numbers_differ(first: usize, m: nat, n: nat)
    requires
        m < n,
        n - m <= usize::MAX,
    ensures
        nth_id(first, m) != nth_id(first, n),
{
    lemma_nth_id_adds_up(first, m, (n - m) as nat);
    lemma_nth_id(nth_id(first, m), (n - m) as nat);
}

proof fn lemma_nth_id_adds_up(first: usize, m: nat, n: nat)
    ensures
        nth_id(first, m + n) == nth_id(nth_id(first, m), n),
    decreases n,
{
    if n > 0 {
        lemma_nth_id_adds_up(first, m, (n - 1) as nat);
    }
}

/// A handle more changes nothing but the number of handles. Dropping it again
/// leaves the executor as it was, and nobody is woken on account of it.
pub proof fn law_handles_balance(executor: ExecutorView)
    requires
        !executor.is_shut_down(),
    ensures
        executor.retain().refs == executor.refs + 1,
        executor.retain().asinc == executor.asinc,
        executor.retain().blocking == executor.blocking,
        executor.retain().release() == (executor, (Notify::Nobody, Notify::Nobody)),
{
}

/// Something that is done to an executor.
pub enum Operation {
    /// See [`Executor::spawn`](crate::Executor::spawn).
    Spawn,
    /// See [`Executor::spawn_blocking`](crate::Executor::spawn_blocking).
    SpawnBlocking,
    /// See [`Executor::schedule`](crate::Executor::schedule).
    Schedule(usize),
    /// See [`Executor::schedule_blocking`](crate::Executor::schedule_blocking).
    ScheduleBlocking(usize),
    /// See [`Executor::async_worker`](crate::Executor::async_worker).
    AsyncWorker(int, WorkerStep),
    /// See [`Executor::blocking_worker`](crate::Executor::blocking_worker).
    BlockingWorker(int, WorkerStep),
    /// See [`Executor::async_woken`](crate::Executor::async_woken).
    AsyncWoken,
    /// See [`Executor::blocking_woken`](crate::Executor::blocking_woken).
    BlockingWoken,
    /// See [`Executor::upgrade`](crate::Executor::upgrade).
    Upgrade,
    /// See [`Executor::retain`](crate::Executor::retain).
    Retain,
    /// See [`Executor::release`](crate::Executor::release).
    Release,
}

impl ExecutorView {
    /// Whether the operation may be performed, and lead to `after`.
    pub open spec fn performs(self, operation: Operation, after: ExecutorView) -> bool {
        match operation {
            Operation::Spawn => after == self.spawn().0,
            Operation::SpawnBlocking => after == self.spawn_blocking().0,
            Operation::Schedule(id) => after == ExecutorView {
                asinc: self.asinc.schedule(id).0,
                ..self
            },
            Operation::ScheduleBlocking(id) => after == ExecutorView {
                blocking: self.blocking.launch(id).0,
                ..self
            },
            Operation::AsyncWorker(worker, step) => {
                &&& 0 <= worker < self.asinc.queues.locals.len()
                &&& self.asinc.steps(worker, self.is_shut_down(), step, after.asinc)
                &&& after == ExecutorView { asinc: after.asinc, ..self }
            },
            Operation::BlockingWorker(worker, step) => {
                &&& 0 <= worker < self.blocking.queues.locals.len()
                &&& self.blocking.steps(worker, self.is_shut_down(), step, after.blocking)
                &&& after == ExecutorView { blocking: after.blocking, ..self }
            },
            Operation::AsyncWoken => {
                &&& self.asinc.parking.waiting > 0
                &&& after == ExecutorView { asinc: self.asinc.woken(), ..self }
            },
            Operation::BlockingWoken => {
                &&& self.blocking.parking.waiting > 0
                &&& after == ExecutorView { blocking: self.blocking.woken(), ..self }
            },
            Operation::Upgrade => after == if self.is_shut_down() {
                self
            } else {
                self.retain()
            },
            Operation::Retain => self.refs > 0 && after == self.retain(),
            Operation::Release => self.refs > 0 && after == self.release().0,
        }
    }
}

/// An executor that is shut down stays so, whatever is done to it, and only
/// dropping its last handle shuts it down.
pub proof fn law_shut_down_is_final(
    before: ExecutorView,
    operation: Operation,
    after: ExecutorView,
)
    requires
        before.performs(operation, after),
    ensures
        before.is_shut_down() ==> after.is_shut_down(),
        !before.is_shut_down() && after.is_shut_down() ==> operation is Release && before.refs == 1,
{
}

/// Whatever is done to an executor, a wake-up is left behind only while no
/// worker of the pool waits, the pool that polls futures keeps its workers, and
/// the other one loses none and never has more than it may have.
pub proof fn law_executor_stays_in_order(
    before: ExecutorView,
    operation: Operation,
    after: ExecutorView,
)
    requires
        before.performs(operation, after),
        before.asinc.inv(),
        before.blocking.inv(),
    ensures
        after.asinc.inv(),
        after.blocking.inv(),
        after.asinc.limit == before.asinc.limit,
        after.blocking.limit == before.blocking.limit,
        after.asinc.queues.locals.len() == before.asinc.queues.locals.len(),
        before.blocking.queues.locals.len() <= after.blocking.queues.locals.len(),
{
    match operation {
        Operation::AsyncWorker(worker, WorkerStep::Run(task)) => {
            law_find_takes_one(
                before.asinc.queues,
                worker,
                Steal::Success(task),
                after.asinc.queues,
            );
        },
        Operation::BlockingWorker(worker, WorkerStep::Run(task)) => {
            law_find_takes_one(
                before.blocking.queues,
                worker,
                Steal::Success(task),
                after.blocking.queues,
            );
        },
        _ => {},
    }
}

/// How many handles are held after the operation, if this many were held before.
/// Cloning one gives one more, and so does asking for one that is granted;
/// dropping one gives one less.
pub open spec fn held_after(before: ExecutorView, operation: Operation, held: int) -> int {
    match operation {
        Operation::Upgrade => if before.is_shut_down() {
            held
        } else {
            held + 1
        },
        Operation::Retain => held + 1,
        Operation::Release => held - 1,
        _ => held,
    }
}

/// Whether these operations, one after the other, may lead from an executor that
/// was just created to this one, with that many handles held in the end.
pub open spec fn executor_history(
    num_async: nat,
    num_blocking: nat,
    operations: Seq<Operation>,
    executor: ExecutorView,
    held: nat,
) -> bool
    decreases operations.len(),
{
    if operations.len() == 0 {
        executor == ExecutorView::initial(num_async, num_blocking) && held == 1
    } else {
        exists|before: ExecutorView, held_before: nat|
            {
                &&& executor_history(
                    num_async,
                    num_blocking,
                    operations.drop_last(),
                    before,
                    held_before,
                )
                &&& #[trigger] before.performs(operations.last(), executor)
                &&& held == #[trigger] held_after(before, operations.last(), held_before as int)
            }
    }
}

/// Whatever was done to an executor since it was created, it counts exactly the
/// handles that are held, and is shut down exactly if none is. It has the
/// workers that poll futures that it was created with, not more that may block
/// than it may have, and a wake-up is left behind in a pool only while none of
/// its workers waits.
pub proof fn law_handles_are_counted(
    num_async: nat,
    num_blocking: nat,
    operations: Seq<Operation>,
    executor: ExecutorView,
    held: nat,
)
    requires
        executor_history(num_async, num_blocking, operations, executor, held),
    ensures
        executor.refs == held,
        executor.is_shut_down() <==> held == 0,
        executor.asinc.inv(),
        executor.blocking.inv(),
        executor.asinc.queues.locals.len() == num_async,
        executor.blocking.limit == num_blocking,
        executor.blocking.queues.locals.len() <= num_blocking,
    decreases operations.len(),
{
    if operations.len() > 0 {
        let (before, held_before) = choose|before: ExecutorView, held_before: nat|
            {
                &&& executor_history(
                    num_async,
                    num_blocking,
                    operations.drop_last(),
                    before,
                    held_before,
                )
                &&& #[trigger] before.performs(operations.last(), executor)
                &&& held == #[trigger] held_after(before, operations.last(), held_before as int)
            };
        law_handles_are_counted(
            num_async,
            num_blocking,
            operations.drop_last(),
            before,
            held_before,
        );
        law_executor_stays_in_order(before, operations.last(), executor);
    }
}

/// A thread that enters an executor and leaves it again is back where it was,
/// whatever it entered and left in between.
pub proof fn law_leaving_undoes_entering<H>(current: Option<H>, executors: Seq<H>)
    ensures
        left_all(entered_all(current, executors).0, entered_all(current, executors).1) == current,
    decreases executors.len(),
{
    if executors.len() > 0 {
        let (before, guards) = entered_all(current, executors.drop_last());
        law_leaving_undoes_entering(current, executors.drop_last());
        let all = entered_all(current, executors).1;
        assert(all.drop_last() =~= guards);
    }
}

/// A thread enters one executor after the other. Returns what it runs inside in
/// the end, and what the guards remember.
pub open spec fn entered_all<H>(current: Option<H>, executors: Seq<H>) -> (
    Option<H>,
    Seq<Option<H>>,
)
    decreases executors.len(),
{
    if executors.len() == 0 {
        (current, Seq::empty())
    } else {
        let (before, guards) = entered_all(current, executors.drop_last());
        let (after, guard) = crate::context::entered(before, executors.last());
        (after, guards.push(guard))
    }
}

/// The guards of a thread go, the last one first. Returns what it runs inside
/// then.
pub open spec fn left_all<H>(current: Option<H>, guards: Seq<Option<H>>) -> Option<H>
    decreases guards.len(),
{
    if guards.len() == 0 {
        current
    } else {
        left_all(crate::context::left(current, guards.last()), guards.drop_last())
    }
}

} // verus!

//! What each operation answers and changes, told by what can be seen before and
//! after it.
use crate::executor::{BlockOn, ExecutorView, Polled};
use crate::laws::Operation;
use crate::parking::{Notify, Park, ParkingView};
use crate::pool::{Launch, PoolView, WorkerStep};
use crate::queue::{QueuesView, Steal};
use vstd::prelude::*;

verus! {

// Sleeping and being woken.

/// A thread that parks goes on without sleep if and only if a wake-up was left
/// behind, however many threads are waiting, and takes it. Otherwise one more
/// thread is waiting.
pub proof fn law_park_sleeps_unless_woken_before(parking: ParkingView)
    ensures
        parking.park().1 == Park::Skip <==> parking.skip,
        parking.park().1 == Park::Wait <==> !parking.skip,
        !parking.park().0.skip,
        parking.skip ==> parking.park().0.waiting == parking.waiting,
        !parking.skip ==> parking.park().0.waiting == parking.waiting + 1,
{
}

/// Waking one thread signals one if and only if threads are waiting and no
/// wake-up is left behind already. It leaves one behind if and only if nobody is
/// waiting. Who is waiting is not changed by it.
pub proof fn law_unpark_one_signals_or_leaves_behind(parking: ParkingView)
    ensures
        parking.unpark_one().1 == Notify::One <==> parking.waiting > 0 && !parking.skip,
        parking.unpark_one().1 == Notify::Nobody <==> parking.waiting == 0 || parking.skip,
        parking.unpark_one().0.skip <==> parking.skip || parking.waiting == 0,
        parking.unpark_one().0.waiting == parking.waiting,
{
}

/// A thread that reports back is counted off, and nothing else changes.
pub proof fn law_woken_counts_one_off(parking: ParkingView)
    requires
        parking.waiting > 0,
    ensures
        parking.woken().waiting == parking.waiting - 1,
        parking.woken().skip == parking.skip,
{
}

/// Something that is done at a place to sleep.
pub enum ParkingCall {
    /// A thread parks.
    Park,
    /// A thread that waited reports back.
    Woken,
    /// One thread is woken.
    UnparkOne,
}

/// The states of a place to sleep that was just created, before and after each
/// of these calls.
pub open spec fn parking_history(calls: Seq<ParkingCall>, states: Seq<ParkingView>) -> bool {
    &&& states.len() == calls.len() + 1
    &&& !states[0].skip
    &&& states[0].waiting == 0
    &&& forall|i: int|
        0 <= i < calls.len() ==> match #[trigger] calls[i] {
            ParkingCall::Park => states[i + 1] == states[i].park().0,
            ParkingCall::Woken => states[i].waiting > 0 && states[i + 1] == states[i].woken(),
            ParkingCall::UnparkOne => states[i + 1] == states[i].unpark_one().0,
        }
}

/// How many of the first `n` calls were those of threads that were told to wait.
pub open spec fn told_to_wait(calls: Seq<ParkingCall>, states: Seq<ParkingView>, n: int) -> int
    decreases n,
{
    if n <= 0 {
        0
    } else {
        told_to_wait(calls, states, n - 1) + if calls[n - 1] is Park && states[n - 1].park().1
            == Park::Wait {
            1int
        } else {
            0
        }
    }
}

/// How many of the first `n` calls were those of threads that reported back.
pub open spec fn reported_back(calls: Seq<ParkingCall>, n: int) -> int
    decreases n,
{
    if n <= 0 {
        0
    } else {
        reported_back(calls, n - 1) + if calls[n - 1] is Woken {
            1int
        } else {
            0
        }
    }
}

/// At any time as many threads are counted as waiting as were told to wait and
/// did not report back.
pub proof fn law_waiting_is_counted(calls: Seq<ParkingCall>, states: Seq<ParkingView>, n: int)
    requires
        parking_history(calls, states),
        0 <= n <= calls.len(),
    ensures
        states[n].waiting == told_to_wait(calls, states, n) - reported_back(calls, n),
    decreases n,
{
    if n > 0 {
        law_waiting_is_counted(calls, states, n - 1);
        assert(calls[n - 1] == calls[n - 1]);
    }
}

/// Of the first `n` calls, the one at `j` was to wake a thread while nobody was
/// waiting, and no thread has parked after it.
pub open spec fn left_behind_at(
    calls: Seq<ParkingCall>,
    states: Seq<ParkingView>,
    j: int,
    n: int,
) -> bool {
    &&& 0 <= j < n
    &&& calls[j] is UnparkOne
    &&& states[j].waiting == 0
    &&& forall|i: int| j < i < n ==> !(#[trigger] calls[i] is Park)
}

/// A thread that parks goes on without sleep if and only if, since a thread last
/// parked, one was to be woken while nobody was waiting.
pub proof fn law_sleep_is_skipped_only_for_a_wake_up(
    calls: Seq<ParkingCall>,
    states: Seq<ParkingView>,
    n: int,
)
    requires
        parking_history(calls, states),
        0 <= n <= calls.len(),
    ensures
        states[n].park().1 == Park::Skip <==> exists|j: int| #[trigger]
            left_behind_at(calls, states, j, n),
    decreases n,
{
    if n > 0 {
        let last = calls[n - 1];
        law_sleep_is_skipped_only_for_a_wake_up(calls, states, n - 1);
        if exists|j: int| #[trigger] left_behind_at(calls, states, j, n - 1) {
            let j = choose|j: int| #[trigger] left_behind_at(calls, states, j, n - 1);
            if !(last is Park) {
                assert(left_behind_at(calls, states, j, n));
            }
        }
        if last is UnparkOne && states[n - 1].waiting == 0 {
            assert(left_behind_at(calls, states, n - 1, n));
        }
        if exists|j: int| #[trigger] left_behind_at(calls, states, j, n) {
            let j = choose|j: int| #[trigger] left_behind_at(calls, states, j, n);
            if j < n - 1 {
                assert(left_behind_at(calls, states, j, n - 1));
            }
        }
    }
}

// Looking for a task.

/// Of two attempts the first that took a task out counts. If neither did, it is
/// to be repeated if and only if one of them is.
pub proof fn law_attempts_are_joined(first: Steal, second: Steal)
    ensures
        first is Success ==> first.or_else_spec(second) == first,
        !(first is Success) && second is Success ==> first.or_else_spec(second) == second,
        !(first is Success) && !(second is Success) ==> {
            &&& first.or_else_spec(second) is Retry <==> first is Retry || second is Retry
            &&& first.or_else_spec(second) is Empty <==> first is Empty && second is Empty
        },
{
}

/// A task that enters goes behind those that nobody has taken on, and no worker
/// has it yet. A worker that joins has no tasks and changes nobody else's.
pub proof fn law_entering_and_joining(queues: QueuesView, task: usize)
    ensures
        queues.push(task).injected.len() == queues.injected.len() + 1,
        queues.push(task).injected.last() == task,
        queues.push(task).injected.drop_last() == queues.injected,
        queues.push(task).locals == queues.locals,
        queues.add_worker().injected == queues.injected,
        queues.add_worker().locals.len() == queues.locals.len() + 1,
        queues.add_worker().locals.last().len() == 0,
        queues.add_worker().locals.drop_last() == queues.locals,
        queues.is_idle() <==> queues.injected.len() == 0 && forall|i: int|
            0 <= i < queues.locals.len() ==> (#[trigger] queues.locals[i]).len() == 0,
{
    assert(queues.push(task).injected.drop_last() =~= queues.injected);
    assert(queues.add_worker().locals.drop_last() =~= queues.locals);
}

/// A worker with tasks of its own is given the first of them. One without is
/// given the first that nobody has taken on, and those that follow it, up to
/// some point, become its own in the same order. It is given none if and only if
/// there is none, and is refused only where there are some. Nothing is taken
/// from its peers.
pub proof fn law_what_is_given(queues: QueuesView, worker: int, first: Steal, after: QueuesView)
    requires
        0 <= worker < queues.locals.len(),
        queues.asks(worker, first, after),
    ensures
        after.locals.len() == queues.locals.len(),
        forall|i: int|
            0 <= i < queues.locals.len() && i != worker ==> #[trigger] after.locals[i]
                == queues.locals[i],
        queues.locals[worker].len() > 0 ==> {
            &&& first == Steal::Success(queues.locals[worker][0])
            &&& after.locals[worker] == queues.locals[worker].subrange(
                1,
                queues.locals[worker].len() as int,
            )
            &&& after.injected == queues.injected
        },
        queues.locals[worker].len() == 0 && first is Success ==> {
            &&& queues.injected.len() > 0
            &&& first == Steal::Success(queues.injected[0])
            &&& queues.injected == seq![queues.injected[0]] + after.locals[worker] + after.injected
        },
        !(first is Success) ==> after == queues && queues.locals[worker].len() == 0,
        first is Empty <==> queues.locals[worker].len() == 0 && queues.injected.len() == 0,
        first is Retry ==> queues.injected.len() > 0,
{
    let own = queues.locals[worker];
    if own.len() > 0 {
        assert(own.skip(1) =~= own.subrange(1, own.len() as int));
    } else if let Steal::Success(task) = first {
        let n = choose|n: int| #[trigger] queues.takes_injected(worker, n, task, after);
        assert(queues.injected =~= seq![queues.injected[0]] + queues.injected.subrange(1, n)
            + queues.injected.skip(n));
    }
}

/// A worker that was given a task leaves its peers alone. One that was given none
/// takes the first task of the first worker that has any. Only if none has, it
/// comes away with nothing, or has to look again if it was refused.
pub proof fn law_what_follows_the_answer(
    queues: QueuesView,
    first: Steal,
    found: Steal,
    after: QueuesView,
)
    requires
        queues.finds_after(first, found, after),
    ensures
        after.injected == queues.injected,
        after.locals.len() == queues.locals.len(),
        first is Success ==> found == first && after == queues,
        !(first is Success) && (forall|i: int|
            0 <= i < queues.locals.len() ==> (#[trigger] queues.locals[i]).len() == 0) ==> found
            == first && after == queues,
        forall|peer: int|
            !(first is Success) && 0 <= peer < queues.locals.len() && (
            #[trigger] queues.locals[peer]).len() > 0 && (forall|i: int|
                0 <= i < peer ==> (#[trigger] queues.locals[i]).len() == 0) ==> {
                &&& found == Steal::Success(queues.locals[peer][0])
                &&& queues.locals[peer] == seq![queues.locals[peer][0]] + after.locals[peer]
                &&& forall|i: int|
                    0 <= i < queues.locals.len() && i != peer ==> #[trigger] after.locals[i]
                        == queues.locals[i]
            },
{
    assert forall|peer: int|
        !(first is Success) && 0 <= peer < queues.locals.len() && (
        #[trigger] queues.locals[peer]).len() > 0 && (forall|i: int|
            0 <= i < peer ==> (#[trigger] queues.locals[i]).len() == 0) implies {
        &&& found == Steal::Success(queues.locals[peer][0])
        &&& queues.locals[peer] == seq![queues.locals[peer][0]] + after.locals[peer]
        &&& forall|i: int|
            0 <= i < queues.locals.len() && i != peer ==> #[trigger] after.locals[i]
                == queues.locals[i]
    } by {
        let second = choose|second: Steal| #[trigger]
            queues.steals(second, after) && found == first.or_else_spec(second);
        if let Steal::Success(task) = second {
            let other = choose|other: int| #[trigger] queues.takes_peer(other, task, after);
            assert(other == peer) by {
                if other < peer {
                    assert(queues.locals[other].len() == 0);
                }
                if peer < other {
                    assert(queues.locals[peer].len() == 0);
                }
            }
            assert(queues.locals[peer] =~= seq![queues.locals[peer][0]]
                + queues.locals[peer].skip(1));
        }
    }
    if !(first is Success) {
        let second = choose|second: Steal| #[trigger]
            queues.steals(second, after) && found == first.or_else_spec(second);
        if let Steal::Success(task) = second {
            let other = choose|other: int| #[trigger] queues.takes_peer(other, task, after);
            assert(queues.locals[other].len() > 0);
        }
    }
}

/// A worker that looks for a task is given an answer by its own queue and the
/// injector, and goes by that.
pub proof fn law_looking_is_asking_and_going_on(
    queues: QueuesView,
    worker: int,
    found: Steal,
    after: QueuesView,
)
    requires
        0 <= worker < queues.locals.len(),
        queues.finds(worker, found, after),
    ensures
        exists|first: Steal, between: QueuesView| #[trigger]
            queues.asks(worker, first, between) && between.finds_after(first, found, after),
        queues.locals[worker].len() > 0 ==> found == Steal::Success(queues.locals[worker][0]),
        found is Empty <==> queues.injected.len() == 0 && forall|i: int|
            0 <= i < queues.locals.len() ==> (#[trigger] queues.locals[i]).len() == 0,
        found is Retry ==> queues.injected.len() > 0 && forall|i: int|
            0 <= i < queues.locals.len() ==> (#[trigger] queues.locals[i]).len() == 0,
        queues.locals[worker].len() == 0 && after.injected.len() < queues.injected.len() ==> found
            == Steal::Success(queues.injected[0]),
{
    let (first, between) = choose|first: Steal, between: QueuesView| #[trigger]
        queues.asks(worker, first, between) && between.finds_after(first, found, after);
    law_what_is_given(queues, worker, first, between);
    law_what_follows_the_answer(between, first, found, after);
}

// Pools.

/// A pool that was just created has the workers that it was asked for, nothing
/// queued, nobody asleep and no wake-up left behind, and its first task gets the
/// number 0.
pub proof fn law_pool_starts_out_idle(workers: nat, limit: nat)
    ensures
        ({
            let pool = PoolView::initial(workers, limit);
            &&& pool.queues.injected.len() == 0
            &&& pool.queues.locals.len() == workers
            &&& forall|i: int| 0 <= i < workers ==> (#[trigger] pool.queues.locals[i]).len() == 0
            &&& pool.parking.waiting == 0
            &&& !pool.parking.skip
            &&& pool.task_id == 0
            &&& pool.limit == limit
        }),
{
}

/// With each task that is numbered the number of the next one goes up by one,
/// and after the largest number it starts over. Nothing else changes.
pub proof fn law_numbering_counts_up(pool: PoolView)
    ensures
        pool.task_id < usize::MAX ==> pool.allocate().task_id == pool.task_id + 1,
        pool.task_id == usize::MAX ==> pool.allocate().task_id == 0,
        pool.allocate().queues == pool.queues,
        pool.allocate().parking == pool.parking,
        pool.allocate().limit == pool.limit,
{
}

/// A task that is scheduled goes behind the others that nobody has taken on, and
/// no worker has it yet. If workers are waiting one of them is signalled, unless
/// a wake-up is left behind already; if none is, one is left behind.
pub proof fn law_scheduling_queues_and_wakes(pool: PoolView, task: usize)
    ensures
        ({
            let (after, notify) = pool.schedule(task);
            &&& after.queues.injected == pool.queues.injected + seq![task]
            &&& after.queues.locals == pool.queues.locals
            &&& notify == Notify::One <==> pool.parking.waiting > 0 && !pool.parking.skip
            &&& notify == Notify::Nobody <==> pool.parking.waiting == 0 || pool.parking.skip
            &&& after.parking.skip <==> pool.parking.skip || pool.parking.waiting == 0
            &&& after.parking.waiting == pool.parking.waiting
            &&& after.task_id == pool.task_id
            &&& after.limit == pool.limit
        }),
{
    assert(pool.queues.injected.push(task) =~= pool.queues.injected + seq![task]);
}

/// A task for a blocking worker goes behind the others that nobody has taken on.
/// A worker is started if and only if none is waiting and there are fewer than
/// there may be; it gets the next number in turn, has no tasks, and where
/// workers sleep nothing changes. Otherwise no worker joins, and one is woken as
/// for any task.
pub proof fn law_launching_starts_or_wakes(pool: PoolView, task: usize)
    requires
        pool.limit <= usize::MAX,
    ensures
        ({
            let (after, launch) = pool.launch(task);
            let started = pool.parking.waiting == 0 && pool.queues.locals.len() < pool.limit;
            &&& after.queues.injected == pool.queues.injected + seq![task]
            &&& after.task_id == pool.task_id
            &&& after.limit == pool.limit
            &&& launch is Start <==> started
            &&& started ==> {
                &&& launch->Start_0 == pool.queues.locals.len()
                &&& after.queues.locals.len() == pool.queues.locals.len() + 1
                &&& after.queues.locals.last().len() == 0
                &&& after.queues.locals.drop_last() == pool.queues.locals
                &&& after.parking == pool.parking
            }
            &&& !started ==> {
                &&& after.queues.locals == pool.queues.locals
                &&& launch == Launch::Wake(Notify::One) <==> pool.parking.waiting > 0
                    && !pool.parking.skip
                &&& launch == Launch::Wake(Notify::Nobody) <==> pool.parking.waiting == 0
                    || pool.parking.skip
                &&& after.parking.skip <==> pool.parking.skip || pool.parking.waiting == 0
                &&& after.parking.waiting == pool.parking.waiting
            }
        }),
{
    assert(pool.queues.injected.push(task) =~= pool.queues.injected + seq![task]);
    assert(pool.queues.push(task).add_worker().locals.drop_last() =~= pool.queues.locals);
}

/// A worker of a pool that reports back is counted off, and nothing else changes.
pub proof fn law_woken_worker_is_counted_off(pool: PoolView)
    requires
        pool.parking.waiting > 0,
    ensures
        pool.woken().parking.waiting == pool.parking.waiting - 1,
        pool.woken().parking.skip == pool.parking.skip,
        pool.woken().queues == pool.queues,
        pool.woken().task_id == pool.task_id,
        pool.woken().limit == pool.limit,
{
}

/// A worker runs exactly what it has found, and looks again exactly if looking
/// failed. One that has found nothing is done if and only if no more tasks will
/// come; otherwise it parks, and sleeps unless a wake-up was left behind.
pub proof fn law_worker_acts_on_what_it_found(pool: PoolView, found: Steal, closed: bool)
    ensures
        ({
            let (after, step) = pool.decide(found, closed);
            &&& step is Run <==> found is Success
            &&& found is Success ==> step->Run_0 == found->Success_0
            &&& step is Retry <==> found is Retry
            &&& step is Exit <==> found is Empty && closed
            &&& step == WorkerStep::Park(Park::Skip) <==> found is Empty && !closed
                && pool.parking.skip
            &&& step == WorkerStep::Park(Park::Wait) <==> found is Empty && !closed
                && !pool.parking.skip
            &&& step == WorkerStep::Park(Park::Skip) ==> !after.parking.skip
                && after.parking.waiting == pool.parking.waiting
            &&& step == WorkerStep::Park(Park::Wait) ==> !after.parking.skip
                && after.parking.waiting == pool.parking.waiting + 1
            &&& !(step is Park) ==> after == pool
            &&& after.queues == pool.queues
            &&& after.task_id == pool.task_id
            &&& after.limit == pool.limit
        }),
{
}

/// A step of a worker is looking for a task and acting on what was found.
pub proof fn law_step_is_looking_and_acting(
    pool: PoolView,
    worker: int,
    closed: bool,
    step: WorkerStep,
    after: PoolView,
)
    requires
        0 <= worker < pool.queues.locals.len(),
        pool.steps(worker, closed, step, after),
    ensures
        exists|found: Steal|
            {
                &&& #[trigger] pool.queues.finds(worker, found, after.queues)
                &&& PoolView { queues: after.queues, ..pool }.decide(found, closed) == (after, step)
            },
        pool.queues.locals[worker].len() > 0 ==> step == WorkerStep::Run(
            pool.queues.locals[worker][0],
        ),
        step is Park || step is Exit <==> pool.queues.injected.len() == 0 && forall|i: int|
            0 <= i < pool.queues.locals.len() ==> (#[trigger] pool.queues.locals[i]).len() == 0,
        step is Park ==> !closed,
        step is Exit ==> closed,
        step == WorkerStep::Park(Park::Skip) ==> pool.parking.skip && !after.parking.skip
            && after.parking.waiting == pool.parking.waiting,
        step == WorkerStep::Park(Park::Wait) ==> !pool.parking.skip && !after.parking.skip
            && after.parking.waiting == pool.parking.waiting + 1,
        !(step is Park) ==> after.parking == pool.parking,
        after.task_id == pool.task_id,
        after.limit == pool.limit,
{
    let found = match step {
        WorkerStep::Run(task) => Steal::Success(task),
        WorkerStep::Retry => Steal::Retry,
        _ => Steal::Empty,
    };
    if found is Empty {
        assert(pool.queues.asks(worker, Steal::Empty, pool.queues));
        assert(pool.queues.steals(Steal::Empty, pool.queues));
        assert(pool.queues.finds_after(Steal::Empty, Steal::Empty, pool.queues));
        assert(PoolView { queues: after.queues, ..pool } =~= pool);
    }
    assert(pool.queues.finds(worker, found, after.queues));
    law_looking_is_asking_and_going_on(pool.queues, worker, found, after.queues);
}

// Executors.

/// On a machine with some processors an executor has one worker to poll futures
/// for each of them, and up to four for each that may block, as far as a machine
/// word can count them. Where no processor is reported it is as for one.
pub proof fn law_sizes_follow_the_processors(cpus: usize)
    ensures
        cpus >= 1 ==> crate::executor::default_sizes(cpus).0 == cpus,
        cpus >= 1 && 4 * cpus <= usize::MAX ==> crate::executor::default_sizes(cpus).1 == 4 * cpus,
        crate::executor::default_sizes(cpus).1 as int == (4
            * crate::executor::default_sizes(cpus).0) as int % (usize::MAX + 1),
        crate::executor::default_sizes(0) == crate::executor::default_sizes(1),
{
    let workers = crate::executor::default_sizes(cpus).0;
    if workers * 4 <= usize::MAX {
        vstd::arithmetic::div_mod::lemma_small_mod((workers * 4) as nat, usize::MAX as nat + 1);
    }
}

/// An executor that is sized to a machine has at least one worker to poll futures
/// and may have four times as many that may block, as far as a machine word can
/// count them. None of these is there yet.
pub proof fn law_default_executor(executor: ExecutorView)
    requires
        executor.is_default(),
    ensures
        executor.asinc.queues.locals.len() >= 1,
        executor.blocking.limit == (4 * executor.asinc.queues.locals.len()) as int % (usize::MAX
            + 1),
        executor.blocking.queues.locals.len() == 0,
        executor.refs == 1,
{
    let cpus = choose|cpus: usize|
        executor == ExecutorView::initial(
            (#[trigger] crate::executor::default_sizes(cpus)).0,
            crate::executor::default_sizes(cpus).1,
        );
    law_sizes_follow_the_processors(cpus);
}

/// An executor that was just created has the workers that it was asked for to
/// poll futures, none that may block, one handle, nothing queued, nobody asleep
/// and no wake-up left behind, and its first task of either kind gets the number
/// 0.
pub proof fn law_executor_starts_out_idle(num_async: nat, num_blocking: nat)
    ensures
        ({
            let executor = ExecutorView::initial(num_async, num_blocking);
            &&& executor.asinc.queues.locals.len() == num_async
            &&& executor.asinc.limit == num_async
            &&& executor.blocking.queues.locals.len() == 0
            &&& executor.blocking.limit == num_blocking
            &&& executor.refs == 1
            &&& executor.asinc.queues.injected.len() == 0
            &&& executor.blocking.queues.injected.len() == 0
            &&& forall|i: int|
                0 <= i < num_async ==> (#[trigger] executor.asinc.queues.locals[i]).len() == 0
            &&& executor.asinc.parking.waiting == 0 && !executor.asinc.parking.skip
            &&& executor.blocking.parking.waiting == 0 && !executor.blocking.parking.skip
            &&& executor.asinc.task_id == 0 && executor.blocking.task_id == 0
        }),
{
}

/// A task that polls a future is queued under the number that it is given, for
/// the workers that poll futures, and one of them is woken. The next one gets
/// another number. The other pool and the handles are left alone.
pub proof fn law_spawning_numbers_queues_and_wakes(executor: ExecutorView)
    ensures
        ({
            let (after, id, notify) = executor.spawn();
            let (pool, next) = (executor.asinc, after.asinc);
            &&& id == pool.task_id
            &&& next.task_id == if id == usize::MAX {
                0int
            } else {
                id + 1
            }
            &&& next.task_id != id
            &&& next.queues.injected == pool.queues.injected + seq![id]
            &&& next.queues.locals == pool.queues.locals
            &&& next.limit == pool.limit
            &&& notify == Notify::One <==> pool.parking.waiting > 0 && !pool.parking.skip
            &&& notify != Notify::Everyone
            &&& next.parking.skip <==> pool.parking.skip || pool.parking.waiting == 0
            &&& next.parking.waiting == pool.parking.waiting
            &&& after.blocking == executor.blocking
            &&& after.refs == executor.refs
        }),
{
    law_scheduling_queues_and_wakes(executor.asinc.allocate(), executor.asinc.task_id);
}

/// A task that may block is queued under the number that it is given, for the
/// workers that may block. One is started if and only if none is waiting and
/// there are fewer than there may be; otherwise one is woken. The next task gets
/// another number. The other pool and the handles are left alone.
pub proof fn law_spawning_blocking_numbers_queues_and_starts(executor: ExecutorView)
    requires
        executor.blocking.limit <= usize::MAX,
    ensures
        ({
            let (after, id, launch) = executor.spawn_blocking();
            let (pool, next) = (executor.blocking, after.blocking);
            &&& id == pool.task_id
            &&& next.task_id == if id == usize::MAX {
                0int
            } else {
                id + 1
            }
            &&& next.task_id != id
            &&& next.queues.injected == pool.queues.injected + seq![id]
            &&& next.limit == pool.limit
            &&& launch is Start <==> pool.parking.waiting == 0 && pool.queues.locals.len()
                < pool.limit
            &&& launch is Start ==> {
                &&& launch->Start_0 == pool.queues.locals.len()
                &&& next.queues.locals.len() == pool.queues.locals.len() + 1
                &&& next.queues.locals.drop_last() == pool.queues.locals
                &&& next.parking == pool.parking
            }
            &&& !(launch is Start) ==> {
                &&& next.queues.locals == pool.queues.locals
                &&& launch == Launch::Wake(Notify::One) <==> pool.parking.waiting > 0
                    && !pool.parking.skip
                &&& launch != Launch::Wake(Notify::Everyone)
                &&& next.parking.skip <==> pool.parking.skip || pool.parking.waiting == 0
                &&& next.parking.waiting == pool.parking.waiting
            }
            &&& after.asinc == executor.asinc
            &&& after.refs == executor.refs
        }),
{
    law_launching_starts_or_wakes(executor.blocking.allocate(), executor.blocking.task_id);
}

/// A handle more or less changes the number of handles by one and nothing else.
/// Everyone is woken, in both pools, if and only if the last one is dropped, and
/// otherwise nobody. The executor is shut down if and only if none is left.
pub proof fn law_handles_come_and_go(executor: ExecutorView)
    ensures
        executor.retain().refs == executor.refs + 1,
        executor.retain().asinc == executor.asinc,
        executor.retain().blocking == executor.blocking,
        executor.is_shut_down() <==> executor.refs == 0,
        executor.refs > 0 ==> {
            let (after, (asinc, blocking)) = executor.release();
            &&& after.refs == executor.refs - 1
            &&& after.asinc == executor.asinc
            &&& after.blocking == executor.blocking
            &&& asinc == Notify::Everyone <==> executor.refs == 1
            &&& blocking == Notify::Everyone <==> executor.refs == 1
            &&& asinc == Notify::Nobody <==> executor.refs != 1
            &&& blocking == Notify::Nobody <==> executor.refs != 1
        },
        crate::context::shut_down() == crate::context::ContextError::ShutDown(
            Notify::Everyone,
            Notify::Everyone,
        ),
{
}

/// A thread that has polled a future returns if and only if the future is
/// complete, and then its output, without touching the place where it sleeps.
/// Otherwise it parks, and sleeps unless a wake-up was left behind.
pub proof fn law_thread_returns_or_parks<T>(polled: Polled<T>, parking: ParkingView)
    ensures
        ({
            let (after, next) = crate::executor::settles(polled, parking);
            &&& next is Return <==> polled is Ready
            &&& polled is Ready ==> next->Return_0 == polled->Ready_0 && after == parking
            &&& next == BlockOn::<T>::Park(Park::Skip) <==> polled is Pending && parking.skip
            &&& next == BlockOn::<T>::Park(Park::Wait) <==> polled is Pending && !parking.skip
            &&& polled is Pending ==> !after.skip
            &&& polled is Pending && parking.skip ==> after.waiting == parking.waiting
            &&& polled is Pending && !parking.skip ==> after.waiting == parking.waiting + 1
        }),
{
}

// Where a thread is.

/// After a thread has entered an executor that is where it is, whatever it was
/// inside before, and the guard remembers that. When the guard goes the thread
/// is where the guard remembers, wherever it was.
pub proof fn law_entering_and_leaving<H>(current: Option<H>, executor: H, previous: Option<H>)
    ensures
        crate::context::entered(current, executor).0 == Some(executor),
        crate::context::entered(current, executor).1 == current,
        crate::context::left(current, previous) == previous,
{
}

/// A thread that has entered one executor after the other is inside the last of
/// them, and each guard remembers the one entered before it.
pub proof fn law_last_entered_is_current<H>(current: Option<H>, executors: Seq<H>)
    ensures
        ({
            let (inside, guards) = crate::laws::entered_all(current, executors);
            &&& executors.len() == 0 ==> inside == current
            &&& executors.len() > 0 ==> inside == Some(executors.last())
            &&& guards.len() == executors.len()
            &&& executors.len() > 0 ==> guards[0] == current
            &&& forall|i: int|
                0 < i < executors.len() ==> #[trigger] guards[i] == Some(executors[i - 1])
        }),
    decreases executors.len(),
{
    if executors.len() > 0 {
        law_last_entered_is_current(current, executors.drop_last());
    }
}

// The life of an executor.

/// The states of an executor that was just created, before and after each of
/// these operations.
pub open spec fn lifetime(
    num_async: nat,
    num_blocking: nat,
    operations: Seq<Operation>,
    states: Seq<ExecutorView>,
) -> bool {
    &&& states.len() == operations.len() + 1
    &&& states[0] == ExecutorView::initial(num_async, num_blocking)
    &&& forall|i: int|
        0 <= i < operations.len() ==> states[i].performs(#[trigger] operations[i], states[i + 1])
}

/// How many of the first `n` operations spawned a task that polls a future.
pub open spec fn spawned(operations: Seq<Operation>, n: int) -> int
    decreases n,
{
    if n <= 0 {
        0
    } else {
        spawned(operations, n - 1) + if operations[n - 1] is Spawn {
            1int
        } else {
            0
        }
    }
}

/// How many of the first `n` operations spawned a task that may block.
pub open spec fn spawned_blocking(operations: Seq<Operation>, n: int) -> int
    decreases n,
{
    if n <= 0 {
        0
    } else {
        spawned_blocking(operations, n - 1) + if operations[n - 1] is SpawnBlocking {
            1int
        } else {
            0
        }
    }
}

/// How often one of the first `n` operations said that a worker is to be started.
pub open spec fn started(operations: Seq<Operation>, states: Seq<ExecutorView>, n: int) -> int
    decreases n,
{
    if n <= 0 {
        0
    } else {
        started(operations, states, n - 1) + match operations[n - 1] {
            Operation::SpawnBlocking => if states[n - 1].spawn_blocking().2 is Start {
                1int
            } else {
                0
            },
            Operation::ScheduleBlocking(id) => if states[n - 1].blocking.launch(id).1 is Start {
                1
            } else {
                0
            },
            _ => 0,
        }
    }
}

/// A number goes up by one and starts over after the largest one.
proof fn lemma_count_up(count: int, id: usize, next: usize)
    requires
        0 <= count,
        id == count % (usize::MAX + 1),
        next == if id == usize::MAX {
            0int
        } else {
            id + 1
        },
    ensures
        next == (count + 1) % (usize::MAX + 1),
{
    let m: int = usize::MAX + 1;
    let q = count / m;
    vstd::arithmetic::div_mod::lemma_fundamental_div_mod(count, m);
    if id == usize::MAX {
        assert(count + 1 == (q + 1) * m + 0) by (nonlinear_arith)
            requires
                count == m * q + id,
                id + 1 == m,
        ;
        vstd::arithmetic::div_mod::lemma_fundamental_div_mod_converse(count + 1, m, q + 1, 0);
    } else {
        assert(count + 1 == q * m + (id + 1)) by (nonlinear_arith)
            requires
                count == m * q + id,
        ;
        vstd::arithmetic::div_mod::lemma_fundamental_div_mod_converse(count + 1, m, q, id + 1);
    }
}

/// Two counts that differ by fewer than there are numbers give different ones.
proof fn lemma_counts_differ(one: int, other: int)
    requires
        0 <= one < other,
        other - one <= usize::MAX,
    ensures
        one % (usize::MAX + 1) != other % (usize::MAX + 1),
{
    let m: int = usize::MAX + 1;
    vstd::arithmetic::div_mod::lemma_fundamental_div_mod(one, m);
    vstd::arithmetic::div_mod::lemma_fundamental_div_mod(other, m);
    if one % m == other % m {
        let (p, q) = (one / m, other / m);
        assert(other - one == m * (q - p)) by (nonlinear_arith)
            requires
                one == m * p + one % m,
                other == m * q + other % m,
                one % m == other % m,
        ;
        assert(q - p >= 1 ==> m * (q - p) >= m) by (nonlinear_arith)
            requires
                m > 0,
        ;
        assert(q - p <= 0 ==> m * (q - p) <= 0) by (nonlinear_arith)
            requires
                m > 0,
        ;
    }
}

/// What holds of an executor at any time in its life.
proof fn lemma_lifetime(
    num_async: nat,
    num_blocking: nat,
    operations: Seq<Operation>,
    states: Seq<ExecutorView>,
    n: int,
)
    requires
        lifetime(num_async, num_blocking, operations, states),
        num_blocking <= usize::MAX,
        0 <= n <= operations.len(),
    ensures
        spawned(operations, n) >= 0,
        spawned_blocking(operations, n) >= 0,
        states[n].asinc.task_id == spawned(operations, n) % (usize::MAX + 1),
        states[n].blocking.task_id == spawned_blocking(operations, n) % (usize::MAX + 1),
        states[n].asinc.queues.locals.len() == num_async,
        states[n].blocking.limit == num_blocking,
        states[n].blocking.queues.locals.len() == started(operations, states, n) <= num_blocking,
        started(operations, states, n) == 0 ==> states[n].blocking.parking.waiting == 0,
    decreases n,
{
    if n == 0 {
        law_executor_starts_out_idle(num_async, num_blocking);
        vstd::arithmetic::div_mod::lemma_small_mod(0, usize::MAX as nat + 1);
    } else {
        let (before, after) = (states[n - 1], states[n]);
        let operation = operations[n - 1];
        lemma_lifetime(num_async, num_blocking, operations, states, n - 1);
        assert(before.performs(operation, after));
        match operation {
            Operation::Spawn => {
                law_spawning_numbers_queues_and_wakes(before);
                lemma_count_up(
                    spawned(operations, n - 1),
                    before.asinc.task_id,
                    after.asinc.task_id,
                );
            },
            Operation::SpawnBlocking => {
                law_spawning_blocking_numbers_queues_and_starts(before);
                lemma_count_up(
                    spawned_blocking(operations, n - 1),
                    before.blocking.task_id,
                    after.blocking.task_id,
                );
            },
            Operation::ScheduleBlocking(id) => {
                law_launching_starts_or_wakes(before.blocking, id);
            },
            Operation::AsyncWorker(worker, step) => {
                crate::laws::law_worker_step(
                    before.asinc,
                    worker,
                    before.is_shut_down(),
                    step,
                    after.asinc,
                );
            },
            Operation::BlockingWorker(worker, step) => {
                crate::laws::law_worker_step(
                    before.blocking,
                    worker,
                    before.is_shut_down(),
                    step,
                    after.blocking,
                );
            },
            _ => {},
        }
    }
}

/// Tasks are numbered in turn: at any time in the life of an executor, the next
/// task that polls a future gets the number of such tasks spawned before, and
/// the next one that may block gets the number of those, as far as a machine
/// word can count.
pub proof fn law_tasks_are_numbered_in_turn(
    num_async: nat,
    num_blocking: nat,
    operations: Seq<Operation>,
    states: Seq<ExecutorView>,
    n: int,
)
    requires
        lifetime(num_async, num_blocking, operations, states),
        num_blocking <= usize::MAX,
        0 <= n <= operations.len(),
    ensures
        states[n].spawn().1 == spawned(operations, n) % (usize::MAX + 1),
        states[n].spawn_blocking().1 == spawned_blocking(operations, n) % (usize::MAX + 1),
{
    lemma_lifetime(num_async, num_blocking, operations, states, n);
}

/// Two tasks of a kind that are spawned in the life of an executor get different
/// numbers, unless at least as many operations as there are numbers lie between.
pub proof fn law_no_two_tasks_share_a_number(
    num_async: nat,
    num_blocking: nat,
    operations: Seq<Operation>,
    states: Seq<ExecutorView>,
    i: int,
    j: int,
)
    requires
        lifetime(num_async, num_blocking, operations, states),
        num_blocking <= usize::MAX,
        0 <= i < j < operations.len(),
        j - i <= usize::MAX,
    ensures
        operations[i] is Spawn && operations[j] is Spawn ==> states[i].spawn().1
            != states[j].spawn().1,
        operations[i] is SpawnBlocking && operations[j] is SpawnBlocking
            ==> states[i].spawn_blocking().1 != states[j].spawn_blocking().1,
{
    lemma_lifetime(num_async, num_blocking, operations, states, i);
    lemma_lifetime(num_async, num_blocking, operations, states, j);
    lemma_spawned_between(operations, i + 1, j);
    if operations[i] is Spawn {
        lemma_counts_differ(spawned(operations, i), spawned(operations, j));
    }
    if operations[i] is SpawnBlocking {
        lemma_counts_differ(spawned_blocking(operations, i), spawned_blocking(operations, j));
    }
}

proof fn lemma_spawned_between(operations: Seq<Operation>, i: int, j: int)
    requires
        0 <= i <= j,
    ensures
        spawned(operations, i) <= spawned(operations, j) <= spawned(operations, i) + j - i,
        spawned_blocking(operations, i) <= spawned_blocking(operations, j) <= spawned_blocking(
            operations,
            i,
        ) + j - i,
    decreases j - i,
{
    if i < j {
        lemma_spawned_between(operations, i, j - 1);
    }
}

/// At any time in the life of an executor there are as many workers that may
/// block as were said to be started, and never more than there may be. The
/// workers that poll futures are those that it was created with.
pub proof fn law_workers_are_those_started(
    num_async: nat,
    num_blocking: nat,
    operations: Seq<Operation>,
    states: Seq<ExecutorView>,
    n: int,
)
    requires
        lifetime(num_async, num_blocking, operations, states),
        num_blocking <= usize::MAX,
        0 <= n <= operations.len(),
    ensures
        states[n].blocking.queues.locals.len() == started(operations, states, n),
        started(operations, states, n) <= num_blocking,
        states[n].asinc.queues.locals.len() == num_async,
        states[n].blocking.limit == num_blocking,
{
    lemma_lifetime(num_async, num_blocking, operations, states, n);
}

/// As long as no worker that may block was started, the next task that may block
/// is reason to start the first one, if there may be any.
pub proof fn law_first_blocking_task_starts_a_worker(
    num_async: nat,
    num_blocking: nat,
    operations: Seq<Operation>,
    states: Seq<ExecutorView>,
    n: int,
)
    requires
        lifetime(num_async, num_blocking, operations, states),
        num_blocking <= usize::MAX,
        0 <= n <= operations.len(),
        started(operations, states, n) == 0,
    ensures
        num_blocking > 0 ==> states[n].spawn_blocking().2 == Launch::Start(0),
        num_blocking == 0 ==> !(states[n].spawn_blocking().2 is Start),
{
    lemma_lifetime(num_async, num_blocking, operations, states, n);
    law_spawning_blocking_numbers_queues_and_starts(states[n]);
}

} // verus!

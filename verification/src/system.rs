//! A pool whose workers run side by side, and what holds of it at any time.
//!
//! Here a worker may be interrupted wherever it looks for a task: each look
//! into its own queue, into the injector and into the queue of a peer is an
//! event of its own, and so are numbering a task, queueing it and waking a
//! worker for it. The
//! events of different threads may come in any order. The one thing that a
//! worker does in one go is to find out that no more tasks will come or else to
//! park, because it holds the state exclusively for both.
//! [`Pool::schedule`](crate::Pool::schedule) and its like are several events in
//! a row.
use crate::executor::ExecutorView;
use crate::parking::Notify;
use crate::pool::{Launch, PoolView, WorkerStep};
use crate::queue::{QueuesView, Steal};
use vstd::multiset::Multiset;
use vstd::prelude::*;

verus! {

/// What a worker is about to do.
pub enum Phase {
    /// It runs a task, if it has found one, and then looks into its own queue.
    Own,
    /// It asks the injector.
    Injector,
    /// It looks into the queue of the worker of that number. If none of those
    /// that follow has a task either, it asks the injector again if the second
    /// value says so.
    Peer(int, bool),
    /// It has found nothing and settles.
    Resting,
    /// It sleeps. The value says whether it has been signalled.
    Asleep(bool),
    /// It is done.
    Done,
}

/// A pool and the threads that use it.
#[verifier::ext_equal]
pub struct System {
    /// The state that they share.
    pub pool: PoolView,
    /// What each of the workers is about to do.
    pub phases: Seq<Phase>,
    /// No more tasks will come.
    pub closed: bool,
    /// How many tasks have been queued that no worker was woken or started for
    /// so far.
    pub unannounced: nat,
    /// The tasks that were ever queued.
    pub queued: Multiset<usize>,
    /// The tasks that were ever handed to a worker.
    pub run: Multiset<usize>,
}

/// What may happen next.
pub enum Event {
    /// A new task gets its number.
    Number,
    /// A task is queued.
    Push(usize),
    /// A worker is woken for a task that was queued.
    Unpark,
    /// A worker is started for a task that was queued.
    Start,
    /// The worker of that number looks into its own queue.
    LookOwn(int),
    /// The worker asks the injector and is given that answer.
    LookInjector(int, Steal),
    /// The worker looks into the queue of the next of its peers, or is through
    /// with them.
    LookPeer(int),
    /// The worker, which has found nothing, parks, or is done if no more tasks
    /// will come.
    Settle(int),
    /// The worker wakes up because it was signalled.
    Wake(int),
    /// The worker wakes up of itself.
    WakeUnasked(int),
    /// The last handle is dropped.
    Close,
}

impl Event {
    /// Whether it is the worker of that number that does it.
    pub open spec fn is_of(self, worker: int) -> bool {
        match self {
            Event::LookOwn(w) => w == worker,
            Event::LookInjector(w, _) => w == worker,
            Event::LookPeer(w) => w == worker,
            Event::Settle(w) => w == worker,
            Event::Wake(w) => w == worker,
            Event::WakeUnasked(w) => w == worker,
            _ => false,
        }
    }
}

/// How many workers sleep.
pub open spec fn sleepers(phases: Seq<Phase>) -> nat
    decreases phases.len(),
{
    if phases.len() == 0 {
        0
    } else {
        sleepers(phases.drop_last()) + if phases.last() is Asleep {
            1nat
        } else {
            0
        }
    }
}

/// What becomes of the workers when those named are signalled. A signal for one
/// reaches a worker that sleeps and was not signalled before, if there is any.
pub open spec fn signals(before: Seq<Phase>, notify: Notify, after: Seq<Phase>) -> bool {
    match notify {
        Notify::Nobody => after == before,
        Notify::One => {
            ||| exists|worker: int|
                0 <= worker < before.len() && before[worker] == Phase::Asleep(false)
                    && #[trigger] before.update(worker, Phase::Asleep(true)) == after
            ||| after == before && forall|worker: int|
                0 <= worker < before.len() ==> #[trigger] before[worker] != Phase::Asleep(false)
        },
        Notify::Everyone => after == before.map_values(
            |phase: Phase|
                if phase is Asleep {
                    Phase::Asleep(true)
                } else {
                    phase
                },
        ),
    }
}

impl System {
    /// A pool that was just created, with its workers about to look for tasks.
    pub open spec fn initial(workers: nat, limit: nat) -> System {
        System {
            pool: PoolView::initial(workers, limit),
            phases: Seq::new(workers, |i: int| Phase::Own),
            closed: false,
            unannounced: 0,
            queued: Multiset::empty(),
            run: Multiset::empty(),
        }
    }

    /// Whether there is a worker of that number and it is in that phase.
    pub open spec fn is_in(self, worker: int, phase: Phase) -> bool {
        0 <= worker < self.phases.len() && self.phases[worker] == phase
    }

    /// The worker goes on to that phase.
    pub open spec fn goes_to(self, worker: int, phase: Phase) -> System {
        System { phases: self.phases.update(worker, phase), ..self }
    }

    /// The queues are now these.
    pub open spec fn with_queues(self, queues: QueuesView) -> System {
        System { pool: PoolView { queues, ..self.pool }, ..self }
    }

    /// The worker takes the first task of `peer`, if there is one, and
    /// otherwise goes on to that phase.
    pub open spec fn takes_or_goes_to(self, worker: int, peer: int, phase: Phase) -> System {
        let own = self.pool.queues.locals[peer];
        if own.len() > 0 {
            let locals = self.pool.queues.locals.update(peer, own.skip(1));
            System {
                run: self.run.insert(own[0]),
                ..self.with_queues(QueuesView { locals, ..self.pool.queues }).goes_to(
                    worker,
                    Phase::Own,
                )
            }
        } else {
            self.goes_to(worker, phase)
        }
    }

    /// Whether the event may happen, and lead to `after`.
    pub open spec fn next(self, event: Event, after: System) -> bool {
        match event {
            Event::Number => after == System { pool: self.pool.allocate(), ..self },
            Event::Push(task) => after == System {
                unannounced: self.unannounced + 1,
                queued: self.queued.insert(task),
                ..self.with_queues(self.pool.queues.push(task))
            },
            Event::Unpark => {
                let (parking, notify) = self.pool.parking.unpark_one();
                &&& self.unannounced > 0
                &&& signals(self.phases, notify, after.phases)
                &&& after == System {
                    pool: PoolView { parking, ..self.pool },
                    phases: after.phases,
                    unannounced: (self.unannounced - 1) as nat,
                    ..self
                }
            },
            Event::Start => {
                &&& self.unannounced > 0
                &&& self.pool.wants_worker()
                &&& after == System {
                    phases: self.phases.push(Phase::Own),
                    unannounced: (self.unannounced - 1) as nat,
                    ..self.with_queues(self.pool.queues.add_worker())
                }
            },
            Event::LookOwn(worker) => {
                &&& self.is_in(worker, Phase::Own)
                &&& after == self.takes_or_goes_to(worker, worker, Phase::Injector)
            },
            Event::LookInjector(worker, first) => {
                let asked = self.with_queues(after.pool.queues);
                &&& self.is_in(worker, Phase::Injector)
                &&& self.pool.queues.asks(worker, first, after.pool.queues)
                &&& after == match first {
                    Steal::Success(task) => System {
                        run: self.run.insert(task),
                        ..asked.goes_to(worker, Phase::Own)
                    },
                    Steal::Empty => asked.goes_to(worker, Phase::Peer(0, false)),
                    Steal::Retry => asked.goes_to(worker, Phase::Peer(0, true)),
                }
            },
            Event::LookPeer(worker) => {
                &&& 0 <= worker < self.phases.len()
                &&& self.phases[worker] matches Phase::Peer(peer, again)
                &&& 0 <= peer <= self.pool.queues.locals.len()
                &&& after == if peer < self.pool.queues.locals.len() {
                    self.takes_or_goes_to(worker, peer, Phase::Peer(peer + 1, again))
                } else if again {
                    self.goes_to(worker, Phase::Injector)
                } else {
                    self.goes_to(worker, Phase::Resting)
                }
            },
            Event::Settle(worker) => {
                let (parking, next) = self.pool.parking.park();
                let parked = System { pool: PoolView { parking, ..self.pool }, ..self };
                &&& self.is_in(worker, Phase::Resting)
                &&& after == if self.closed {
                    self.goes_to(worker, Phase::Done)
                } else if next is Skip {
                    parked.goes_to(worker, Phase::Own)
                } else {
                    parked.goes_to(worker, Phase::Asleep(false))
                }
            },
            Event::Wake(worker) => {
                &&& self.is_in(worker, Phase::Asleep(true))
                &&& after == System { pool: self.pool.woken(), ..self }.goes_to(worker, Phase::Own)
            },
            Event::WakeUnasked(worker) => {
                &&& self.is_in(worker, Phase::Asleep(false))
                &&& after == System { pool: self.pool.woken(), ..self }.goes_to(worker, Phase::Own)
            },
            Event::Close => {
                &&& signals(self.phases, Notify::Everyone, after.phases)
                &&& after == System { closed: true, phases: after.phases, ..self }
            },
        }
    }

    /// Whether these events, one after the other, may lead to `after`.
    pub open spec fn leads_to(self, events: Seq<Event>, after: System) -> bool
        decreases events.len(),
    {
        if events.len() == 0 {
            after == self
        } else {
            exists|between: System|
                self.leads_to(events.drop_last(), between) && #[trigger] between.next(
                    events.last(),
                    after,
                )
        }
    }

    /// Whether the worker will ask the injector before it sleeps or is done,
    /// whatever is left behind for it.
    pub open spec fn attends(self, worker: int) -> bool {
        &&& 0 <= worker < self.phases.len()
        &&& match self.phases[worker] {
            Phase::Own => true,
            Phase::Injector => true,
            Phase::Peer(_, again) => again,
            Phase::Resting => false,
            Phase::Asleep(signalled) => signalled,
            Phase::Done => false,
        }
    }

    /// Whether the worker will ask the injector before it sleeps or is done, as
    /// things are: it will anyway, or it is on its way to park and a wake-up was
    /// left behind for it.
    pub open spec fn comes_back(self, worker: int) -> bool {
        ||| self.attends(worker)
        ||| 0 <= worker < self.phases.len() && self.pool.parking.skip && !self.closed && (
        self.phases[worker] is Peer || self.phases[worker] is Resting)
    }

    /// What holds at any time.
    pub open spec fn inv(self) -> bool {
        &&& self.pool.inv()
        &&& self.phases.len() == self.pool.queues.locals.len()
        &&& sleepers(self.phases) == self.pool.parking.waiting
        &&& forall|w: int| #[trigger] self.is_in(w, Phase::Done) ==> self.closed
        &&& forall|w: int| #[trigger] self.is_in(w, Phase::Asleep(false)) ==> !self.closed
        &&& forall|w: int|
            0 <= w < self.phases.len() && (#[trigger] self.pool.queues.locals[w]).len() > 0
                ==> self.phases[w] is Own
        &&& self.queued == self.run.add(self.pool.queues.tasks())
        &&& self.pool.queues.injected.len() > 0 ==> {
            ||| self.unannounced > 0
            ||| self.pool.parking.skip
            ||| exists|w: int| #[trigger] self.attends(w)
        }
    }
}

/// A state that a pool may come to, from its creation on.
pub open spec fn reachable(workers: nat, limit: nat, state: System) -> bool {
    workers <= limit && exists|events: Seq<Event>| #[trigger]
        System::initial(workers, limit).leads_to(events, state)
}

/// One worker going on to another phase changes the number of sleepers by that
/// worker alone.
proof fn lemma_sleepers_update(phases: Seq<Phase>, worker: int, phase: Phase)
    requires
        0 <= worker < phases.len(),
    ensures
        sleepers(phases.update(worker, phase)) + if phases[worker] is Asleep {
            1nat
        } else {
            0
        } == sleepers(phases) + if phase is Asleep {
            1nat
        } else {
            0
        },
    decreases phases.len(),
{
    let updated = phases.update(worker, phase);
    if worker == phases.len() - 1 {
        assert(updated.drop_last() =~= phases.drop_last());
    } else {
        lemma_sleepers_update(phases.drop_last(), worker, phase);
        assert(updated.drop_last() =~= phases.drop_last().update(worker, phase));
    }
}

/// Someone sleeps exactly if there is a worker that does.
proof fn lemma_sleepers(phases: Seq<Phase>)
    ensures
        sleepers(phases) > 0 <==> exists|w: int|
            0 <= w < phases.len() && (#[trigger] phases[w]) is Asleep,
    decreases phases.len(),
{
    if phases.len() > 0 {
        let fewer = phases.drop_last();
        lemma_sleepers(fewer);
        if sleepers(fewer) > 0 {
            let w = choose|w: int| 0 <= w < fewer.len() && (#[trigger] fewer[w]) is Asleep;
            assert(phases[w] is Asleep);
        }
        if phases.last() is Asleep {
            assert(phases[phases.len() - 1] is Asleep);
        }
        if exists|w: int| 0 <= w < phases.len() && (#[trigger] phases[w]) is Asleep {
            let w = choose|w: int| 0 <= w < phases.len() && (#[trigger] phases[w]) is Asleep;
            if w < fewer.len() {
                assert(fewer[w] is Asleep);
            }
        }
    }
}

/// Where the same workers sleep, as many do.
proof fn lemma_sleepers_same(one: Seq<Phase>, other: Seq<Phase>)
    requires
        one.len() == other.len(),
        forall|w: int|
            0 <= w < one.len() ==> ((#[trigger] one[w]) is Asleep <==> other[w] is Asleep),
    ensures
        sleepers(one) == sleepers(other),
    decreases one.len(),
{
    if one.len() > 0 {
        assert forall|w: int| 0 <= w < one.len() - 1 implies ((
        #[trigger] one.drop_last()[w]) is Asleep <==> other.drop_last()[w] is Asleep) by {
            assert(one[w] is Asleep <==> other[w] is Asleep);
        }
        lemma_sleepers_same(one.drop_last(), other.drop_last());
        assert(one[one.len() - 1] is Asleep <==> other[one.len() - 1] is Asleep);
    }
}

/// What holds of a new system.
proof fn lemma_initial(workers: nat, limit: nat)
    requires
        workers <= limit,
    ensures
        System::initial(workers, limit).inv(),
{
    let state = System::initial(workers, limit);
    let queues = state.pool.queues;
    assert(queues.is_idle());
    crate::laws::lemma_idle_has_no_tasks(queues);
    assert(state.queued =~= state.run.add(queues.tasks()));
    lemma_sleepers(state.phases);
}

/// A worker that takes a task of `peer`, or finds none there and goes on.
proof fn lemma_takes_or_goes_to(before: System, worker: int, peer: int, phase: Phase)
    requires
        before.inv(),
        0 <= worker < before.phases.len(),
        0 <= peer < before.phases.len(),
        before.phases[worker] is Own || before.phases[worker] is Peer,
        before.phases[worker] is Own ==> peer == worker,
        before.attends(worker) ==> phase is Injector || (phase matches Phase::Peer(_, again)
            && again),
        !(phase is Asleep) && !(phase is Done),
    ensures
        before.takes_or_goes_to(worker, peer, phase).inv(),
{
    let after = before.takes_or_goes_to(worker, peer, phase);
    let own = before.pool.queues.locals[peer];
    if own.len() > 0 {
        crate::laws::lemma_takes_own(
            before.pool.queues,
            peer,
            own[0],
            after.pool.queues,
        );
        lemma_goes_to(before, worker, Phase::Own, after);
        assert(after.queued =~= after.run.add(after.pool.queues.tasks()));
    } else {
        lemma_goes_to(before, worker, phase, after);
    }
}

/// What holds of the workers after one of them that was awake has gone on to
/// another phase in which it is awake.
proof fn lemma_goes_to(before: System, worker: int, phase: Phase, after: System)
    requires
        before.inv(),
        0 <= worker < before.phases.len(),
        !(before.phases[worker] is Asleep) && !(phase is Asleep) && !(phase is Done),
        after.phases == before.phases.update(worker, phase),
        after.closed == before.closed,
    ensures
        sleepers(after.phases) == before.pool.parking.waiting,
        forall|w: int| #[trigger] after.is_in(w, Phase::Done) ==> after.closed,
        forall|w: int| #[trigger] after.is_in(w, Phase::Asleep(false)) ==> !after.closed,
        after.attends(worker) || !before.attends(worker) ==> ((exists|w: int| #[trigger]
            before.attends(w)) ==> exists|w: int| #[trigger] after.attends(w)),
{
    lemma_sleepers_update(before.phases, worker, phase);
    assert forall|w: int| #[trigger] after.is_in(w, Phase::Done) implies after.closed by {
        assert(before.is_in(w, Phase::Done));
    }
    assert forall|w: int| #[trigger] after.is_in(w, Phase::Asleep(false)) implies !after.closed by {
        assert(before.is_in(w, Phase::Asleep(false)));
    }
    if exists|w: int| #[trigger] before.attends(w) {
        let w = choose|w: int| #[trigger] before.attends(w);
        if w != worker {
            assert(after.attends(w));
        }
    }
}

/// What holds at one time holds after the next event.
proof fn lemma_next(before: System, event: Event, after: System)
    requires
        before.inv(),
        before.next(event, after),
    ensures
        after.inv(),
{
    let queues = before.pool.queues;
    match event {
        Event::Number => {
            lemma_same_phases(before, after);
        },
        Event::Push(task) => {
            crate::laws::law_push_adds_one(queues, task);
            assert(after.queued =~= after.run.add(after.pool.queues.tasks()));
            lemma_same_phases(before, after);
        },
        Event::Unpark => {
            lemma_unpark(before, after);
        },
        Event::Start => {
            crate::laws::law_add_worker_adds_none(queues);
            assert(after.queued =~= after.run.add(after.pool.queues.tasks()));
            assert(after.phases.drop_last() =~= before.phases);
            assert(after.attends(before.phases.len() as int));
            assert forall|w: int| #[trigger] after.is_in(w, Phase::Done) implies after.closed by {
                assert(before.is_in(w, Phase::Done));
            }
            assert forall|w: int| #[trigger]
                after.is_in(w, Phase::Asleep(false)) implies !after.closed by {
                assert(before.is_in(w, Phase::Asleep(false)));
            }
        },
        Event::LookOwn(worker) => {
            lemma_takes_or_goes_to(before, worker, worker, Phase::Injector);
        },
        Event::LookInjector(worker, first) => {
            crate::laws::lemma_ask_takes_one(queues, worker, first, after.pool.queues);
            lemma_goes_to(before, worker, after.phases[worker], after);
            assert(after.queued =~= after.run.add(after.pool.queues.tasks()));
        },
        Event::LookPeer(worker) => {
            if let Phase::Peer(peer, again) = before.phases[worker] {
                if peer < queues.locals.len() {
                    lemma_takes_or_goes_to(before, worker, peer, Phase::Peer(peer + 1, again));
                } else {
                    lemma_goes_to(before, worker, after.phases[worker], after);
                }
            }
        },
        Event::Settle(worker) => {
            lemma_settle(before, worker, after);
        },
        Event::Wake(worker) => {
            lemma_wake(before, worker, after);
        },
        Event::WakeUnasked(worker) => {
            lemma_wake(before, worker, after);
        },
        Event::Close => {
            lemma_sleepers_same(before.phases, after.phases);
            lemma_signalled(before, after);
        },
    }
}

/// What holds of the workers still does if none of them does anything.
proof fn lemma_same_phases(before: System, after: System)
    requires
        before.inv(),
        after.phases == before.phases,
        after.closed == before.closed,
    ensures
        forall|w: int| #[trigger] after.is_in(w, Phase::Done) ==> after.closed,
        forall|w: int| #[trigger] after.is_in(w, Phase::Asleep(false)) ==> !after.closed,
        (exists|w: int| #[trigger] before.attends(w)) ==> exists|w: int| #[trigger]
            after.attends(w),
{
    assert forall|w: int| #[trigger] after.is_in(w, Phase::Done) implies after.closed by {
        assert(before.is_in(w, Phase::Done));
    }
    assert forall|w: int| #[trigger] after.is_in(w, Phase::Asleep(false)) implies !after.closed by {
        assert(before.is_in(w, Phase::Asleep(false)));
    }
    if exists|w: int| #[trigger] before.attends(w) {
        let w = choose|w: int| #[trigger] before.attends(w);
        assert(after.attends(w));
    }
}

/// What holds of the workers after everyone was signalled.
proof fn lemma_signalled(before: System, after: System)
    requires
        before.inv(),
        signals(before.phases, Notify::Everyone, after.phases),
        after.closed,
    ensures
        forall|w: int| !#[trigger] after.is_in(w, Phase::Asleep(false)),
        (exists|w: int| #[trigger] before.attends(w)) ==> exists|w: int| #[trigger]
            after.attends(w),
{
    if exists|w: int| #[trigger] before.attends(w) {
        let w = choose|w: int| #[trigger] before.attends(w);
        assert(after.attends(w));
    }
}

proof fn lemma_unpark(before: System, after: System)
    requires
        before.inv(),
        before.next(Event::Unpark, after),
    ensures
        after.inv(),
{
    let notify = before.pool.parking.unpark_one().1;
    if after.phases == before.phases {
        lemma_same_phases(before, after);
        if notify is One {
            lemma_sleepers(before.phases);
            let w = choose|w: int| 0 <= w < before.phases.len() && (
            #[trigger] before.phases[w]) is Asleep;
            assert(before.phases[w] != Phase::Asleep(false));
            assert(after.attends(w));
        }
    } else {
        let worker = choose|worker: int|
            0 <= worker < before.phases.len() && before.phases[worker] == Phase::Asleep(false)
                && #[trigger] before.phases.update(worker, Phase::Asleep(true)) == after.phases;
        lemma_sleepers_update(before.phases, worker, Phase::Asleep(true));
        assert(after.attends(worker));
        assert forall|w: int| #[trigger] after.is_in(w, Phase::Done) implies after.closed by {
            assert(before.is_in(w, Phase::Done));
        }
        assert forall|w: int| #[trigger]
            after.is_in(w, Phase::Asleep(false)) implies !after.closed by {
            assert(before.is_in(w, Phase::Asleep(false)));
        }
    }
}

proof fn lemma_settle(before: System, worker: int, after: System)
    requires
        before.inv(),
        before.next(Event::Settle(worker), after),
    ensures
        after.inv(),
{
    lemma_sleepers_update(before.phases, worker, after.phases[worker]);
    assert forall|w: int| #[trigger] after.is_in(w, Phase::Done) implies after.closed by {
        if w != worker {
            assert(before.is_in(w, Phase::Done));
        }
    }
    assert forall|w: int| #[trigger] after.is_in(w, Phase::Asleep(false)) implies !after.closed by {
        if w != worker {
            assert(before.is_in(w, Phase::Asleep(false)));
        }
    }
    if exists|w: int| #[trigger] before.attends(w) {
        let w = choose|w: int| #[trigger] before.attends(w);
        assert(after.attends(w));
    }
    if before.pool.parking.skip && !before.closed {
        assert(after.attends(worker));
    }
}

proof fn lemma_wake(before: System, worker: int, after: System)
    requires
        before.inv(),
        before.next(Event::Wake(worker), after) || before.next(Event::WakeUnasked(worker), after),
    ensures
        after.inv(),
        before.pool.parking.waiting > 0,
{
    lemma_sleepers_update(before.phases, worker, Phase::Own);
    assert(after.attends(worker));
    assert forall|w: int| #[trigger] after.is_in(w, Phase::Done) implies after.closed by {
        assert(before.is_in(w, Phase::Done));
    }
    assert forall|w: int| #[trigger] after.is_in(w, Phase::Asleep(false)) implies !after.closed by {
        assert(before.is_in(w, Phase::Asleep(false)));
    }
}

proof fn lemma_leads_to(before: System, events: Seq<Event>, after: System)
    requires
        before.inv(),
        before.leads_to(events, after),
    ensures
        after.inv(),
    decreases events.len(),
{
    if events.len() > 0 {
        let between = choose|between: System|
            before.leads_to(events.drop_last(), between) && #[trigger] between.next(
                events.last(),
                after,
            );
        lemma_leads_to(before, events.drop_last(), between);
        lemma_next(between, events.last(), after);
    }
}

/// Whatever the threads of a pool do, and in whatever order, at any time: every
/// task that was queued has either been handed to a worker or is still queued,
/// as often as it was queued and not more often; as many workers are counted as
/// waiting as there are asleep; a wake-up is left behind only while none is;
/// and there are not more workers than there may be.
pub proof fn law_every_task_runs_once(workers: nat, limit: nat, state: System)
    requires
        reachable(workers, limit, state),
    ensures
        state.queued == state.run.add(state.pool.queues.tasks()),
        state.pool.parking.waiting == sleepers(state.phases),
        state.pool.inv(),
        state.inv(),
{
    let events = choose|events: Seq<Event>| #[trigger]
        System::initial(workers, limit).leads_to(events, state);
    lemma_initial(workers, limit);
    lemma_leads_to(System::initial(workers, limit), events, state);
}

/// No task is left lying while all workers sleep. Whatever the threads of a pool
/// do, and in whatever order: a worker that has taken tasks on will look into
/// its own queue before anything else; and if there are tasks in the injector,
/// each task that was queued was announced, there are workers, and a handle is
/// left, then some worker will ask the injector before it sleeps.
pub proof fn law_no_task_is_forgotten(workers: nat, limit: nat, state: System)
    requires
        reachable(workers, limit, state),
    ensures
        forall|w: int|
            0 <= w < state.phases.len() && (#[trigger] state.pool.queues.locals[w]).len() > 0
                ==> state.phases[w] is Own,
        state.pool.queues.injected.len() > 0 && state.unannounced == 0 && state.phases.len() > 0
            && !state.closed ==> exists|w: int| #[trigger] state.comes_back(w),
{
    law_every_task_runs_once(workers, limit, state);
    if state.pool.queues.injected.len() > 0 && state.unannounced == 0 && state.phases.len() > 0
        && !state.closed {
        if exists|w: int| #[trigger] state.attends(w) {
            let w = choose|w: int| #[trigger] state.attends(w);
            assert(state.comes_back(w));
        } else {
            lemma_sleepers(state.phases);
            assert(!(state.phases[0] is Asleep));
            assert(!state.is_in(0, Phase::Done));
            assert(!state.attends(0));
            assert(state.comes_back(0));
        }
    }
}

/// A worker goes to sleep or is done only after it has looked everywhere: into
/// its own queue, which was empty, then into the injector, which was empty, and
/// then into the queue of each of its peers in turn, which was empty when it
/// looked. Where the injector refused, it asks there again. After it was asleep
/// it starts over.
pub proof fn law_rests_only_after_looking_everywhere(
    before: System,
    event: Event,
    after: System,
    worker: int,
)
    requires
        before.inv(),
        before.next(event, after),
        0 <= worker < before.phases.len(),
        after.phases[worker] != before.phases[worker],
    ensures
        match after.phases[worker] {
            Phase::Own => true,
            Phase::Injector => {
                ||| before.phases[worker] is Own && before.pool.queues.locals[worker].len() == 0
                ||| before.phases[worker] == Phase::Peer(
                    before.pool.queues.locals.len() as int,
                    true,
                )
            },
            Phase::Peer(peer, again) => {
                ||| peer == 0 && before.phases[worker] is Injector && (again
                    <==> before.pool.queues.injected.len() > 0)
                ||| peer > 0 && before.phases[worker] == Phase::Peer(peer - 1, again)
                    && before.pool.queues.locals[peer - 1].len() == 0
            },
            Phase::Resting => before.phases[worker] == Phase::Peer(
                before.pool.queues.locals.len() as int,
                false,
            ),
            Phase::Asleep(signalled) => {
                ||| !signalled && before.phases[worker] is Resting && !before.closed
                ||| signalled && before.phases[worker] == Phase::Asleep(false)
            },
            Phase::Done => before.phases[worker] is Resting && before.closed,
        },
        before.phases[worker] is Asleep && !(after.phases[worker] is Asleep)
            ==> after.phases[worker] is Own,
{
}

/// Once the last handle is dropped no worker sleeps on: each of those that sleep
/// has been signalled, and none goes to sleep any more. No worker is done
/// before.
pub proof fn law_shut_down_wakes_everyone(
    workers: nat,
    limit: nat,
    state: System,
    event: Event,
    after: System,
)
    requires
        reachable(workers, limit, state),
        state.next(event, after),
    ensures
        state.closed ==> forall|w: int| !#[trigger] state.is_in(w, Phase::Asleep(false)),
        !state.closed ==> forall|w: int| !#[trigger] state.is_in(w, Phase::Done),
        state.closed ==> after.closed && after.pool.parking.waiting <= state.pool.parking.waiting,
{
    law_every_task_runs_once(workers, limit, state);
    match event {
        Event::Wake(worker) => lemma_wake(state, worker, after),
        Event::WakeUnasked(worker) => lemma_wake(state, worker, after),
        _ => {},
    }
}

/// Queueing a task and waking one worker are what scheduling a task does.
pub proof fn law_schedule_is_push_and_unpark(
    before: System,
    task: usize,
    between: System,
    after: System,
)
    requires
        before.next(Event::Push(task), between),
        between.next(Event::Unpark, after),
    ensures
        after.pool == before.pool.schedule(task).0,
        signals(before.phases, before.pool.schedule(task).1, after.phases),
        after.unannounced == before.unannounced,
{
}

/// Queueing a task and then starting a worker, if one is wanted, or else waking
/// one are what launching a task does.
pub proof fn law_launch_is_push_and_start_or_unpark(
    before: System,
    task: usize,
    between: System,
    after: System,
)
    requires
        before.next(Event::Push(task), between),
        if before.pool.wants_worker() {
            between.next(Event::Start, after)
        } else {
            between.next(Event::Unpark, after)
        },
    ensures
        after.pool == before.pool.launch(task).0,
        match before.pool.launch(task).1 {
            Launch::Start(_) => after.phases == before.phases.push(Phase::Own),
            Launch::Wake(notify) => signals(before.phases, notify, after.phases),
        },
        after.unannounced == before.unannounced,
{
}

/// Numbering a task, queueing it and waking one worker are what spawning a task
/// that polls a future does to the pool for it. The other pool is left alone.
pub proof fn law_spawn_is_number_push_and_unpark(
    executor: ExecutorView,
    before: System,
    numbered: System,
    pushed: System,
    after: System,
)
    requires
        before.pool == executor.asinc,
        before.next(Event::Number, numbered),
        numbered.next(Event::Push(executor.spawn().1), pushed),
        pushed.next(Event::Unpark, after),
    ensures
        after.pool == executor.spawn().0.asinc,
        signals(before.phases, executor.spawn().2, after.phases),
        after.queued == before.queued.insert(executor.spawn().1),
        after.unannounced == before.unannounced,
        executor.spawn().0.blocking == executor.blocking,
        executor.spawn().0.refs == executor.refs,
{
}

/// Numbering a task, queueing it and then starting a worker, if one is wanted,
/// or else waking one are what spawning a task that may block does to the pool
/// for it. The other pool is left alone.
pub proof fn law_spawn_blocking_is_number_push_and_start_or_unpark(
    executor: ExecutorView,
    before: System,
    numbered: System,
    pushed: System,
    after: System,
)
    requires
        before.pool == executor.blocking,
        before.next(Event::Number, numbered),
        numbered.next(Event::Push(executor.spawn_blocking().1), pushed),
        if executor.blocking.wants_worker() {
            pushed.next(Event::Start, after)
        } else {
            pushed.next(Event::Unpark, after)
        },
    ensures
        after.pool == executor.spawn_blocking().0.blocking,
        match executor.spawn_blocking().2 {
            Launch::Start(_) => after.phases == before.phases.push(Phase::Own),
            Launch::Wake(notify) => signals(before.phases, notify, after.phases),
        },
        after.queued == before.queued.insert(executor.spawn_blocking().1),
        after.unannounced == before.unannounced,
        executor.spawn_blocking().0.asinc == executor.asinc,
        executor.spawn_blocking().0.refs == executor.refs,
{
}

/// A worker can always be woken for a task that was queued.
proof fn lemma_unpark_happens(before: System) -> (after: System)
    requires
        before.unannounced > 0,
    ensures
        before.next(Event::Unpark, after),
{
    let (parking, notify) = before.pool.parking.unpark_one();
    let unsignalled = |w: int| 0 <= w < before.phases.len() && before.phases[w] == Phase::Asleep(
        false,
    );
    let phases = if notify is One && exists|w: int| #[trigger] unsignalled(w) {
        before.phases.update(choose|w: int| #[trigger] unsignalled(w), Phase::Asleep(true))
    } else {
        before.phases
    };
    assert forall|w: int|
        phases == before.phases && notify is One && 0 <= w
            < before.phases.len() implies #[trigger] before.phases[w] != Phase::Asleep(false) by {
        if unsignalled(w) {
            let chosen = choose|w: int| #[trigger] unsignalled(w);
            assert(unsignalled(chosen));
            assert(phases[chosen] == Phase::Asleep(true));
        }
    }
    System {
        pool: PoolView { parking, ..before.pool },
        phases,
        unannounced: (before.unannounced - 1) as nat,
        ..before
    }
}

/// The state after one more event is one that the pool may come to.
pub proof fn law_events_lead_on(
    workers: nat,
    limit: nat,
    state: System,
    event: Event,
    after: System,
)
    requires
        reachable(workers, limit, state),
        state.next(event, after),
    ensures
        reachable(workers, limit, after),
{
    let events = choose|events: Seq<Event>| #[trigger]
        System::initial(workers, limit).leads_to(events, state);
    lemma_one_more(System::initial(workers, limit), events, state, event, after);
}

/// An executor in which a task was spawned is in a state that its pools may come
/// to, if it was so before, and the task is among those that were queued.
pub proof fn law_spawning_leads_on(
    workers: nat,
    limit: nat,
    executor: ExecutorView,
    before: System,
)
    requires
        reachable(workers, limit, before),
    ensures
        before.pool == executor.asinc ==> exists|after: System|
            {
                &&& #[trigger] reachable(workers, limit, after)
                &&& after.pool == executor.spawn().0.asinc
                &&& after.queued == before.queued.insert(executor.spawn().1)
                &&& signals(before.phases, executor.spawn().2, after.phases)
            },
        before.pool == executor.blocking ==> exists|after: System|
            {
                &&& #[trigger] reachable(workers, limit, after)
                &&& after.pool == executor.spawn_blocking().0.blocking
                &&& after.queued == before.queued.insert(executor.spawn_blocking().1)
                &&& match executor.spawn_blocking().2 {
                    Launch::Start(_) => after.phases == before.phases.push(Phase::Own),
                    Launch::Wake(notify) => signals(before.phases, notify, after.phases),
                }
            },
{
    let id = before.pool.task_id;
    let numbered = System { pool: before.pool.allocate(), ..before };
    let pushed = System {
        unannounced: numbered.unannounced + 1,
        queued: numbered.queued.insert(id),
        ..numbered.with_queues(numbered.pool.queues.push(id))
    };
    law_events_lead_on(workers, limit, before, Event::Number, numbered);
    law_events_lead_on(workers, limit, numbered, Event::Push(id), pushed);
    let unparked = lemma_unpark_happens(pushed);
    law_events_lead_on(workers, limit, pushed, Event::Unpark, unparked);
    if before.pool == executor.asinc {
        law_spawn_is_number_push_and_unpark(executor, before, numbered, pushed, unparked);
    }
    if before.pool == executor.blocking {
        let after = if executor.blocking.wants_worker() {
            let started = System {
                phases: pushed.phases.push(Phase::Own),
                unannounced: (pushed.unannounced - 1) as nat,
                ..pushed.with_queues(pushed.pool.queues.add_worker())
            };
            law_events_lead_on(workers, limit, pushed, Event::Start, started);
            started
        } else {
            unparked
        };
        law_spawn_blocking_is_number_push_and_start_or_unpark(
            executor,
            before,
            numbered,
            pushed,
            after,
        );
        assert(reachable(workers, limit, after));
    }
}

/// A worker that wakes up, signalled or not, is what `woken` accounts for: there
/// is a worker to be counted off, and that is all that changes in the pool.
pub proof fn law_waking_up_is_woken(before: System, worker: int, after: System)
    requires
        before.inv(),
        before.next(Event::Wake(worker), after) || before.next(Event::WakeUnasked(worker), after),
    ensures
        before.pool.parking.waiting > 0,
        after.pool == before.pool.woken(),
        after.phases == before.phases.update(worker, Phase::Own),
{
    lemma_wake(before, worker, after);
}

/// Dropping the last handle of an executor closes both of its pools, and those
/// that are signalled then are the workers that `release` names. Dropping any
/// other handle changes nothing in a pool and signals nobody.
pub proof fn law_last_release_closes(
    executor: ExecutorView,
    asinc: System,
    asinc_after: System,
    blocking: System,
    blocking_after: System,
)
    requires
        executor.refs > 0,
        asinc.pool == executor.asinc,
        blocking.pool == executor.blocking,
        executor.refs == 1 ==> asinc.next(Event::Close, asinc_after) && blocking.next(
            Event::Close,
            blocking_after,
        ),
        executor.refs > 1 ==> asinc_after == asinc && blocking_after == blocking,
    ensures
        asinc_after.pool == executor.release().0.asinc,
        blocking_after.pool == executor.release().0.blocking,
        signals(asinc.phases, executor.release().1.0, asinc_after.phases),
        signals(blocking.phases, executor.release().1.1, blocking_after.phases),
        executor.release().0.is_shut_down() ==> asinc_after.closed && blocking_after.closed,
        executor.release().0.is_shut_down() <==> executor.refs == 1,
{
}

/// One more event.
proof fn lemma_one_more(
    before: System,
    events: Seq<Event>,
    between: System,
    event: Event,
    after: System,
)
    requires
        before.leads_to(events, between),
        between.next(event, after),
    ensures
        before.leads_to(events.push(event), after),
{
    let longer = events.push(event);
    assert(longer.drop_last() =~= events);
    assert(between.next(longer.last(), after));
}

/// A worker looks into the queues of the first `n` workers, which are empty.
proof fn lemma_empty_peers(
    start: System,
    events: Seq<Event>,
    before: System,
    worker: int,
    again: bool,
    n: nat,
) -> (longer: Seq<Event>)
    requires
        start.leads_to(events, before),
        before.is_in(worker, Phase::Peer(0, again)),
        n <= before.pool.queues.locals.len(),
        forall|i: int| 0 <= i < n ==> (#[trigger] before.pool.queues.locals[i]).len() == 0,
        forall|i: int| 0 <= i < events.len() ==> (#[trigger] events[i]).is_of(worker),
    ensures
        start.leads_to(longer, before.goes_to(worker, Phase::Peer(n as int, again))),
        forall|i: int| 0 <= i < longer.len() ==> (#[trigger] longer[i]).is_of(worker),
    decreases n,
{
    let after = before.goes_to(worker, Phase::Peer(n as int, again));
    if n == 0 {
        assert(after =~= before);
        events
    } else {
        let fewer = lemma_empty_peers(start, events, before, worker, again, (n - 1) as nat);
        let between = before.goes_to(worker, Phase::Peer(n - 1, again));
        assert(before.pool.queues.locals[n - 1].len() == 0);
        assert(after =~= between.goes_to(worker, Phase::Peer(n as int, again)));
        assert(between.next(Event::LookPeer(worker), after));
        lemma_one_more(start, fewer, between, Event::LookPeer(worker), after);
        fewer.push(Event::LookPeer(worker))
    }
}

/// The phase that a worker is in after it was told to do this.
pub open spec fn phase_after(step: WorkerStep) -> Phase {
    match step {
        WorkerStep::Run(_) => Phase::Own,
        WorkerStep::Retry => Phase::Injector,
        WorkerStep::Park(next) => if next is Skip {
            Phase::Own
        } else {
            Phase::Asleep(false)
        },
        WorkerStep::Exit => Phase::Done,
    }
}

/// A worker without tasks of its own that is about to ask the injector goes
/// through with its step.
proof fn lemma_step_from_injector(
    start: System,
    events: Seq<Event>,
    before: System,
    worker: int,
    step: WorkerStep,
    pool: PoolView,
) -> (result: (Seq<Event>, System))
    requires
        start.leads_to(events, before),
        forall|i: int| 0 <= i < events.len() ==> (#[trigger] events[i]).is_of(worker),
        before.is_in(worker, Phase::Injector),
        before.phases.len() == before.pool.queues.locals.len(),
        before.pool.queues.locals[worker].len() == 0,
        before.pool.steps(worker, before.closed, step, pool),
    ensures
        start.leads_to(result.0, result.1),
        forall|i: int| 0 <= i < result.0.len() ==> (#[trigger] result.0[i]).is_of(worker),
        result.1.pool == pool,
        result.1.phases == before.phases.update(worker, phase_after(step)),
{
    let queues = before.pool.queues;
    let injected = step matches WorkerStep::Run(task) && exists|n: int| #[trigger]
        queues.takes_injected(worker, n, task, pool.queues);
    if injected {
        // The injector gives it a task.
        if let WorkerStep::Run(task) = step {
            let first = Steal::Success(task);
            let after = System {
                run: before.run.insert(task),
                ..before.with_queues(pool.queues).goes_to(worker, Phase::Own)
            };
            assert(queues.asks(worker, first, pool.queues));
            assert(before.next(Event::LookInjector(worker, first), after));
            lemma_one_more(start, events, before, Event::LookInjector(worker, first), after);
            (events.push(Event::LookInjector(worker, first)), after)
        } else {
            (events, before)
        }
    } else {
        // The injector gives it none.
        let again = queues.injected.len() > 0;
        let first = if again {
            Steal::Retry
        } else {
            Steal::Empty
        };
        let asked = before.goes_to(worker, Phase::Peer(0, again));
        assert(before.with_queues(queues) =~= before);
        assert(queues.asks(worker, first, queues));
        assert(before.next(Event::LookInjector(worker, first), asked));
        lemma_one_more(start, events, before, Event::LookInjector(worker, first), asked);
        let looked = events.push(Event::LookInjector(worker, first));
        if let WorkerStep::Run(task) = step {
            // A peer has one.
            crate::laws::law_what_is_found(queues, worker, Steal::Success(task), pool.queues);
            let peer = choose|peer: int| #[trigger] queues.takes_peer(peer, task, pool.queues);
            let longer = lemma_empty_peers(start, looked, asked, worker, again, peer as nat);
            let between = asked.goes_to(worker, Phase::Peer(peer, again));
            let after = between.takes_or_goes_to(worker, peer, Phase::Peer(peer + 1, again));
            assert(between.next(Event::LookPeer(worker), after));
            lemma_one_more(start, longer, between, Event::LookPeer(worker), after);
            assert(after.phases =~= before.phases.update(worker, Phase::Own));
            (longer.push(Event::LookPeer(worker)), after)
        } else {
            // Nobody has any.
            if step is Retry {
                crate::laws::law_what_is_found(queues, worker, Steal::Retry, pool.queues);
            }
            let count = queues.locals.len();
            let longer = lemma_empty_peers(start, looked, asked, worker, again, count);
            let between = asked.goes_to(worker, Phase::Peer(count as int, again));
            let through = between.goes_to(
                worker,
                if again {
                    Phase::Injector
                } else {
                    Phase::Resting
                },
            );
            assert(between.next(Event::LookPeer(worker), through));
            lemma_one_more(start, longer, between, Event::LookPeer(worker), through);
            let longest = longer.push(Event::LookPeer(worker));
            if again {
                assert(through.phases =~= before.phases.update(worker, Phase::Injector));
                (longest, through)
            } else {
                let (parking, next) = through.pool.parking.park();
                let parked = System { pool: PoolView { parking, ..through.pool }, ..through };
                let after = if through.closed {
                    through.goes_to(worker, Phase::Done)
                } else if next is Skip {
                    parked.goes_to(worker, Phase::Own)
                } else {
                    parked.goes_to(worker, Phase::Asleep(false))
                };
                assert(through.next(Event::Settle(worker), after));
                lemma_one_more(start, longest, through, Event::Settle(worker), after);
                assert(after.phases =~= before.phases.update(worker, phase_after(step)));
                (longest.push(Event::Settle(worker)), after)
            }
        }
    }
}

/// A step of a worker is that worker looking into its own queue, asking the
/// injector, looking into the queues of its peers one after the other and
/// settling, as far as it gets, with nobody else in between.
pub proof fn law_step_is_looking_and_settling(
    before: System,
    worker: int,
    step: WorkerStep,
    pool: PoolView,
)
    requires
        before.inv(),
        before.is_in(worker, Phase::Own) || before.is_in(worker, Phase::Injector),
        before.pool.steps(worker, before.closed, step, pool),
    ensures
        exists|events: Seq<Event>, after: System|
            {
                &&& #[trigger] before.leads_to(events, after)
                &&& forall|i: int| 0 <= i < events.len() ==> (#[trigger] events[i]).is_of(worker)
                &&& after.pool == pool
                &&& after.phases == before.phases.update(worker, phase_after(step))
            },
{
    let none = Seq::<Event>::empty();
    assert(before.leads_to(none, before));
    let own = before.pool.queues.locals[worker];
    let found = match step {
        WorkerStep::Run(task) => Steal::Success(task),
        WorkerStep::Retry => Steal::Retry,
        _ => Steal::Empty,
    };
    // The first event, unless the worker has already looked into its own queue.
    let (events, asking) = if before.is_in(worker, Phase::Own) {
        let looked = before.takes_or_goes_to(worker, worker, Phase::Injector);
        assert(before.next(Event::LookOwn(worker), looked));
        lemma_one_more(before, none, before, Event::LookOwn(worker), looked);
        (none.push(Event::LookOwn(worker)), looked)
    } else {
        (none, before)
    };
    if own.len() > 0 {
        crate::laws::law_what_is_found(before.pool.queues, worker, found, pool.queues);
    } else {
        let (longer, after) = lemma_step_from_injector(before, events, asking, worker, step, pool);
        assert(after.phases =~= before.phases.update(worker, phase_after(step)));
    }
}

} // verus!

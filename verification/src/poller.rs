//! A thread that runs a future to completion, the wakers of that future, and
//! what holds of them at any time.
//!
//! The future is polled, and then the thread settles: it returns the output or
//! parks. Wakers are called by other threads, before or after either.
use crate::executor::{BlockOn, Polled};
use crate::parking::{Notify, ParkingView};
use vstd::prelude::*;

verus! {

/// What the thread is about to do.
pub enum PollerPhase<T> {
    /// It polls the future.
    Polling,
    /// It has polled the future, with this outcome, and settles.
    Settling(Polled<T>),
    /// It sleeps. The value says whether it has been signalled.
    Asleep(bool),
    /// It has returned this.
    Returned(T),
}

/// A thread that runs a future to completion.
pub struct Poller<T> {
    /// Where it sleeps.
    pub parking: ParkingView,
    /// What it is about to do.
    pub phase: PollerPhase<T>,
    /// What the future answered each time that it was polled.
    pub polls: Seq<Polled<T>>,
    /// How often the thread has parked.
    pub parks: nat,
    /// Whether a waker was called since the future was last polled.
    pub called: bool,
}

/// What may happen next.
pub enum PollerEvent<T> {
    /// The thread polls the future, with this outcome.
    Poll(Polled<T>),
    /// The thread settles.
    Settle,
    /// A waker is called.
    Call,
    /// The thread wakes up because it was signalled.
    Wake,
    /// The thread wakes up of itself.
    WakeUnasked,
}

impl<T> Poller<T> {
    /// A thread that is about to poll the future for the first time.
    pub open spec fn initial() -> Poller<T> {
        Poller {
            parking: ParkingView { skip: false, waiting: 0 },
            phase: PollerPhase::Polling,
            polls: Seq::empty(),
            parks: 0,
            called: false,
        }
    }

    /// Whether the event may happen, and lead to `after`.
    pub open spec fn next(self, event: PollerEvent<T>, after: Poller<T>) -> bool {
        match event {
            PollerEvent::Poll(polled) => {
                &&& self.phase is Polling
                &&& after == Poller {
                    phase: PollerPhase::Settling(polled),
                    polls: self.polls.push(polled),
                    called: false,
                    ..self
                }
            },
            PollerEvent::Settle => {
                &&& self.phase matches PollerPhase::Settling(polled)
                &&& after == {
                    let (parking, next) = crate::executor::settles(polled, self.parking);
                    match next {
                        BlockOn::Return(output) => Poller {
                            parking,
                            phase: PollerPhase::Returned(output),
                            ..self
                        },
                        BlockOn::Park(next) => Poller {
                            parking,
                            phase: if next is Skip {
                                PollerPhase::Polling
                            } else {
                                PollerPhase::Asleep(false)
                            },
                            parks: self.parks + 1,
                            ..self
                        },
                    }
                }
            },
            PollerEvent::Call => {
                let (parking, notify) = self.parking.unpark_one();
                after == Poller {
                    parking,
                    phase: if notify is One && self.phase is Asleep {
                        PollerPhase::Asleep(true)
                    } else {
                        self.phase
                    },
                    called: true,
                    ..self
                }
            },
            PollerEvent::Wake => {
                &&& self.phase == PollerPhase::<T>::Asleep(true)
                &&& after == Poller {
                    parking: self.parking.woken(),
                    phase: PollerPhase::Polling,
                    ..self
                }
            },
            PollerEvent::WakeUnasked => {
                &&& self.phase == PollerPhase::<T>::Asleep(false)
                &&& after == Poller {
                    parking: self.parking.woken(),
                    phase: PollerPhase::Polling,
                    ..self
                }
            },
        }
    }

    /// Whether these events, one after the other, may lead to `after`.
    pub open spec fn leads_to(self, events: Seq<PollerEvent<T>>, after: Poller<T>) -> bool
        decreases events.len(),
    {
        if events.len() == 0 {
            after == self
        } else {
            exists|between: Poller<T>|
                self.leads_to(events.drop_last(), between) && #[trigger] between.next(
                    events.last(),
                    after,
                )
        }
    }

    /// Each time but the last the future was not complete.
    pub open spec fn pending_before_last(self) -> bool {
        forall|i: int| 0 <= i < self.polls.len() - 1 ==> (#[trigger] self.polls[i]) is Pending
    }

    /// What holds at any time.
    pub open spec fn inv(self) -> bool {
        &&& self.parking.inv()
        &&& self.parking.waiting == if self.phase is Asleep {
            1nat
        } else {
            0
        }
        &&& self.pending_before_last()
        &&& match self.phase {
            PollerPhase::Settling(polled) => {
                &&& self.polls.len() == self.parks + 1
                &&& self.polls.last() == polled
                &&& self.called ==> self.parking.skip
            },
            PollerPhase::Returned(output) => {
                &&& self.polls.len() == self.parks + 1
                &&& self.polls.last() == Polled::Ready(output)
            },
            _ => {
                &&& self.polls.len() == self.parks
                &&& self.polls.len() > 0 ==> self.polls.last() is Pending
            },
        }
        &&& self.called ==> self.phase != PollerPhase::<T>::Asleep(false)
    }
}

/// A state that the thread may come to.
pub open spec fn poller_reachable<T>(state: Poller<T>) -> bool {
    exists|events: Seq<PollerEvent<T>>| #[trigger] Poller::<T>::initial().leads_to(events, state)
}

proof fn lemma_next<T>(before: Poller<T>, event: PollerEvent<T>, after: Poller<T>)
    requires
        before.inv(),
        before.next(event, after),
    ensures
        after.inv(),
{
    if event is Poll {
        assert forall|i: int| 0 <= i < after.polls.len() - 1 implies (
        #[trigger] after.polls[i]) is Pending by {
            assert(after.polls[i] == before.polls[i]);
        }
    }
}

proof fn lemma_leads_to<T>(events: Seq<PollerEvent<T>>, after: Poller<T>)
    requires
        Poller::<T>::initial().leads_to(events, after),
    ensures
        after.inv(),
    decreases events.len(),
{
    if events.len() > 0 {
        let between = choose|between: Poller<T>|
            Poller::<T>::initial().leads_to(events.drop_last(), between)
                && #[trigger] between.next(events.last(), after);
        lemma_leads_to(events.drop_last(), between);
        lemma_next(between, events.last(), after);
    }
}

/// Whenever wakers are called, a thread that runs a future to completion and has
/// returned has polled it until it was complete for the first time, and not
/// once more. It returned that output, and has parked once after each poll that
/// did not complete the future and not after the one that did.
pub proof fn law_block_on_returns_the_output<T>(state: Poller<T>, output: T)
    requires
        poller_reachable(state),
        state.phase == PollerPhase::Returned(output),
    ensures
        state.polls.len() > 0,
        state.polls.last() == Polled::Ready(output),
        state.pending_before_last(),
        state.parks == state.polls.len() - 1,
        forall|polled: Polled<T>, after: Poller<T>|
            !#[trigger] state.next(PollerEvent::Poll(polled), after),
{
    let events = choose|events: Seq<PollerEvent<T>>| #[trigger]
        Poller::<T>::initial().leads_to(events, state);
    lemma_leads_to(events, state);
}

/// A thread that runs a future to completion never sleeps through a call of a
/// waker: if one was called since the future was last polled, then the thread
/// has returned, polls the future again before it sleeps, or has been signalled.
pub proof fn law_calls_of_wakers_are_not_lost<T>(state: Poller<T>, after: Poller<T>)
    requires
        poller_reachable(state),
        state.called,
    ensures
        state.phase != PollerPhase::<T>::Asleep(false),
        state.phase == PollerPhase::Settling(Polled::<T>::Pending) && state.next(
            PollerEvent::Settle,
            after,
        ) ==> after.phase is Polling,
{
    let events = choose|events: Seq<PollerEvent<T>>| #[trigger]
        Poller::<T>::initial().leads_to(events, state);
    lemma_leads_to(events, state);
}

/// What came of polling a future again and again.
pub struct Completion<T> {
    /// How often it was polled.
    pub polls: nat,
    /// How often the thread parked.
    pub parks: nat,
    /// What was returned, if anything.
    pub output: Option<T>,
}

/// What a thread does whose future answers this, one time after the other, while
/// the place where it sleeps is found in those states. It goes on until it has
/// something to return.
pub open spec fn completes<T>(answers: Seq<Polled<T>>, parkings: Seq<ParkingView>) -> Completion<T>
    decreases answers.len(),
{
    if answers.len() == 0 {
        Completion { polls: 0, parks: 0, output: None }
    } else {
        let before = completes(answers.drop_last(), parkings);
        if before.output is Some {
            before
        } else {
            match crate::executor::settles(answers.last(), parkings[answers.len() - 1]).1 {
                BlockOn::Return(output) => Completion {
                    polls: before.polls + 1,
                    output: Some(output),
                    ..before
                },
                BlockOn::Park(_) => Completion {
                    polls: before.polls + 1,
                    parks: before.parks + 1,
                    ..before
                },
            }
        }
    }
}

/// A future that is not complete the first `pending` times and then is complete
/// is polled once more than that, its output is returned, and the thread parks
/// that often. What the future would answer after that does not matter, nor
/// does what the wakers have left behind each time.
pub proof fn law_first_output_is_returned<T>(
    answers: Seq<Polled<T>>,
    parkings: Seq<ParkingView>,
    pending: nat,
    output: T,
)
    requires
        pending < answers.len(),
        forall|i: int| 0 <= i < pending ==> (#[trigger] answers[i]) is Pending,
        answers[pending as int] == Polled::Ready(output),
    ensures
        completes(answers, parkings) == (Completion {
            polls: pending + 1,
            parks: pending,
            output: Some(output),
        }),
    decreases answers.len(),
{
    let fewer = answers.drop_last();
    if pending < fewer.len() {
        law_first_output_is_returned(fewer, parkings, pending, output);
    } else {
        law_parks_after_each_pending_poll(fewer, parkings);
    }
}

/// As long as the future is not complete nothing is returned, and the thread
/// parks once after each poll.
pub proof fn law_parks_after_each_pending_poll<T>(
    answers: Seq<Polled<T>>,
    parkings: Seq<ParkingView>,
)
    requires
        forall|i: int| 0 <= i < answers.len() ==> (#[trigger] answers[i]) is Pending,
    ensures
        completes(answers, parkings) == (Completion {
            polls: answers.len(),
            parks: answers.len(),
            output: None::<T>,
        }),
    decreases answers.len(),
{
    if answers.len() > 0 {
        assert(answers.last() is Pending);
        law_parks_after_each_pending_poll(answers.drop_last(), parkings);
    }
}

} // verus!

//! Where threads go to sleep until there is something to do.
use vstd::prelude::*;

verus! {

/// What a thread that calls [`Parking::park`] does next.
#[derive(Clone, Copy, Debug, PartialEq, Eq, Structural)]
pub enum Park {
    /// A wake-up was left behind for it: it goes on at once.
    Skip,
    /// It is now counted as waiting: it sleeps until it is signalled, and then
    /// reports back with [`Parking::woken`].
    Wait,
}

/// Which of the waiting threads are to be signalled.
#[derive(Clone, Copy, Debug, PartialEq, Eq, Structural)]
pub enum Notify {
    /// None of them.
    Nobody,
    /// One of them, whichever it is.
    One,
    /// Every one of them.
    Everyone,
}

/// What a [`Parking`] remembers.
pub struct ParkingView {
    /// The next thread to park does not sleep.
    pub skip: bool,
    /// How many threads are waiting, those included that have been signalled
    /// and did not report back yet.
    pub waiting: nat,
}

impl ParkingView {
    /// A wake-up is left behind only while nobody is there to receive it.
    pub open spec fn inv(self) -> bool {
        self.skip ==> self.waiting == 0
    }

    /// The outcome of parking.
    pub open spec fn park(self) -> (ParkingView, Park) {
        if self.skip {
            (ParkingView { skip: false, ..self }, Park::Skip)
        } else {
            (ParkingView { waiting: self.waiting + 1, ..self }, Park::Wait)
        }
    }

    /// The state after a waiting thread has reported back.
    pub open spec fn woken(self) -> ParkingView
        recommends
            self.waiting > 0,
    {
        ParkingView { waiting: (self.waiting - 1) as nat, ..self }
    }

    /// The outcome of waking one thread.
    pub open spec fn unpark_one(self) -> (ParkingView, Notify) {
        if self.skip {
            (self, Notify::Nobody)
        } else if self.waiting > 0 {
            (self, Notify::One)
        } else {
            (ParkingView { skip: true, ..self }, Notify::Nobody)
        }
    }
}

/// The state behind a place to sleep: whether a wake-up was left behind for
/// the next thread that wants to sleep, and how many threads are sleeping.
pub struct Parking {
    skip: bool,
    waiting: usize,
}

impl View for Parking {
    type V = ParkingView;

    closed spec fn view(&self) -> ParkingView {
        ParkingView { skip: self.skip, waiting: self.waiting as nat }
    }
}

impl Parking {
    /// Creates a place to sleep with nobody in it and no wake-up left behind.
    pub fn new() -> (parking: Self)
        ensures
            parking@ == (ParkingView { skip: false, waiting: 0 }),
            parking@.inv(),
    {
        Parking { skip: false, waiting: 0 }
    }

    /// A thread wants to sleep. It takes the wake-up that was left behind, if
    /// there is one, and waits otherwise.
    pub fn park(&mut self) -> (next: Park)
        requires
            old(self)@.waiting < usize::MAX,
        ensures
            (final(self)@, next) == old(self)@.park(),
            next == Park::Skip <==> old(self)@.skip,
            !final(self)@.skip,
            next == Park::Skip ==> final(self)@.waiting == old(self)@.waiting,
            next == Park::Wait ==> final(self)@.waiting == old(self)@.waiting + 1,
            old(self)@.inv() ==> final(self)@.inv(),
    {
        if self.skip {
            self.skip = false;
            Park::Skip
        } else {
            self.waiting = self.waiting + 1;
            Park::Wait
        }
    }

    /// A thread that was told to wait is awake again, whether it was signalled
    /// or woke up of itself.
    pub fn woken(&mut self)
        requires
            old(self)@.waiting > 0,
        ensures
            final(self)@ == old(self)@.woken(),
            final(self)@.waiting == old(self)@.waiting - 1,
            final(self)@.skip == old(self)@.skip,
            old(self)@.inv() ==> final(self)@.inv(),
    {
        self.waiting = self.waiting - 1;
    }

    /// Wakes one thread. If nobody is waiting, the wake-up is left behind for
    /// the next thread that parks; a second one is not kept.
    pub fn unpark_one(&mut self) -> (notify: Notify)
        ensures
            (final(self)@, notify) == old(self)@.unpark_one(),
            notify == Notify::One <==> !old(self)@.skip && old(self)@.waiting > 0,
            notify != Notify::Everyone,
            final(self)@.skip <==> old(self)@.skip || old(self)@.waiting == 0,
            final(self)@.waiting == old(self)@.waiting,
            old(self)@.inv() ==> final(self)@.inv(),
    {
        if self.skip {
            Notify::Nobody
        } else if self.waiting > 0 {
            Notify::One
        } else {
            self.skip = true;
            Notify::Nobody
        }
    }

    /// Wakes every thread that is waiting. Nothing is left behind.
    pub fn unpark_all(&self) -> (notify: Notify)
        ensures
            notify == Notify::Everyone,
    {
        Notify::Everyone
    }

    /// Whether nobody is waiting.
    pub fn is_empty(&self) -> (empty: bool)
        ensures
            empty == (self@.waiting == 0),
    {
        self.waiting == 0
    }
}

} // verus!

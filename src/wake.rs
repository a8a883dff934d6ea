//! Single-slot wakeup registers, one per side of a channel.
use vstd::prelude::*;
use atomic_waker::AtomicWaker;
use std::task::Waker;

verus! {

/// A task handle that a suspended operation leaves behind to be resumed.
#[verifier::external_type_specification]
#[verifier::external_body]
pub struct ExWaker(Waker);

/// The register that holds at most one task handle.
#[verifier::external_type_specification]
#[verifier::external_body]
pub struct ExAtomicWaker(AtomicWaker);

/// Relies on `AtomicWaker::new`: a register that holds no task handle.
pub assume_specification[ AtomicWaker::new ]() -> AtomicWaker;

/// Relies on `AtomicWaker::register`: stores a clone of `waker`, replacing
/// any handle stored before.
pub assume_specification[ AtomicWaker::register ](slot: &AtomicWaker, waker: &Waker);

/// Relies on `AtomicWaker::wake`: takes the stored handle, if any, and
/// wakes it.
pub assume_specification[ AtomicWaker::wake ](slot: &AtomicWaker);

/// Relies on `AtomicWaker::take`: takes the stored handle, if any, without
/// waking it.
pub assume_specification[ AtomicWaker::take ](slot: &AtomicWaker) -> Option<Waker>;

/// One side's wakeup register.
///
/// Besides the register itself it keeps, as ghost state, whether a
/// suspended operation waits in it and how many waiting operations have
/// been resumed through it.
pub struct WakeSlot {
    waker: AtomicWaker,
    armed: Ghost<bool>,
    woken: Ghost<nat>,
}

impl WakeSlot {
    /// A suspended operation waits in the register.
    pub closed spec fn armed(&self) -> bool {
        self.armed@
    }

    /// How many waiting operations have been resumed so far.
    pub closed spec fn woken(&self) -> nat {
        self.woken@
    }

    pub fn new() -> (r: WakeSlot)
        ensures
            !r.armed(),
            r.woken() == 0,
    {
        WakeSlot { waker: AtomicWaker::new(), armed: Ghost(false), woken: Ghost(0) }
    }

    /// Leaves `waker` to be resumed by the other side.
    pub fn register(&mut self, waker: &Waker)
        ensures
            final(self).armed(),
            final(self).woken() == old(self).woken(),
    {
        self.waker.register(waker);
        self.armed = Ghost(true);
    }

    /// Resumes the waiting operation, if there is one.
    pub fn wake(&mut self)
        ensures
            !final(self).armed(),
            final(self).woken() == old(self).woken() + if old(self).armed() { 1nat } else { 0nat },
    {
        self.waker.wake();
        self.woken = Ghost(self.woken@ + if self.armed@ { 1nat } else { 0nat });
        self.armed = Ghost(false);
    }

    /// Drops the stored handle, if any, without resuming it.
    pub fn clear(&mut self)
        ensures
            !final(self).armed(),
            final(self).woken() == old(self).woken(),
    {
        let _stale = self.waker.take();
        self.armed = Ghost(false);
    }
}

} // verus!

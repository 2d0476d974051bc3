//! The shutdown coordinator: the one-shot signal that asks for the child's
//! end.
//!
//! The signal is raised when the host sends `KillProcess` and when the host
//! hangs up. The status worker looks at it before every poll. Once raised it
//! stays raised, so it can be raised again, and at any time, without harm.

use vstd::prelude::*;

verus! {

/// Whether the signal is raised after it was raised `times` more times.
pub open spec fn after_signals(before: bool, times: nat) -> bool {
    before || times > 0
}

/// The one-shot signal.
pub struct ShutdownCoordinator {
    requested: bool,
}

impl View for ShutdownCoordinator {
    type V = bool;

    /// Whether the signal has been raised.
    closed spec fn view(&self) -> bool {
        self.requested
    }
}

impl ShutdownCoordinator {
    /// A coordinator whose signal has not been raised.
    pub fn new() -> (coordinator: ShutdownCoordinator)
        ensures
            !coordinator@,
    {
        ShutdownCoordinator { requested: false }
    }

    /// Raises the signal. This cannot fail, and it does not matter whether
    /// the signal was raised before.
    pub fn signal(&mut self)
        ensures
            final(self)@ == after_signals(old(self)@, 1),
    {
        self.requested = true;
    }

    /// Whether the signal has been raised.
    pub fn is_requested(&self) -> (requested: bool)
        ensures
            requested == self@,
    {
        self.requested
    }
}

/// Raising the signal is idempotent: raised once, it is raised; raised
/// again, any number of times, it is as it was after the first time; and a
/// signal that is raised stays raised.
pub proof fn lemma_signal_idempotent(before: bool, times: nat, more: nat)
    ensures
        after_signals(before, 1),
        after_signals(after_signals(before, times), more) == after_signals(before, times + more),
        times >= 1 ==> after_signals(before, times) == after_signals(before, 1),
        before ==> after_signals(before, times),
{
}

} // verus!

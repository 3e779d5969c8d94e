//! Ownership of the external browser-driver subprocess.
//!
//! `ProcessGuard` models the lifecycle of the one driver subprocess the
//! application spawns at startup. The host keeps the real OS handle beside
//! a `ProcessGuard` and signals the process to terminate exactly when the
//! guard tells it to, so every shutdown path funnels through one authoritative
//! release decision, and releasing twice is harmless.

use vstd::prelude::*;

verus! {

/// What the host must do with the real subprocess handle after a release
/// request: send the kill signal, or nothing, because an earlier release
/// already did.
#[derive(Clone, Copy, PartialEq, Eq, Structural, Debug)]
pub enum TerminationAction {
    /// The subprocess has not been signalled yet: kill it now, best-effort.
    SignalKill,
    /// A previous release already signalled the subprocess: do nothing.
    AlreadyTerminated,
}

/// The lifecycle state of the owned driver subprocess: spawned once,
/// signalled to terminate exactly once, whichever shutdown path comes first.
pub struct ProcessGuard {
    terminated: bool,
}

/// The state a guard is left in by a release request, whatever state it
/// was in before: terminated, and nothing else about it changes.
pub closed spec fn released(g: ProcessGuard) -> ProcessGuard {
    ProcessGuard { terminated: true }
}

impl ProcessGuard {
    /// Whether the owned subprocess has already been signalled to terminate.
    pub closed spec fn is_terminated(self) -> bool {
        self.terminated
    }

    /// Takes ownership of a freshly spawned driver subprocess.
    pub fn acquire() -> (g: ProcessGuard)
        ensures
            !g.is_terminated(),
    {
        ProcessGuard { terminated: false }
    }

    /// Requests termination of the owned subprocess. Safe to call any number
    /// of times: only the first call asks the host to send the kill signal,
    /// and afterwards the guard is terminated for good.
    pub fn release(&mut self) -> (action: TerminationAction)
        ensures
            *final(self) == released(*old(self)),
            final(self).is_terminated(),
            action == TerminationAction::SignalKill <==> !old(self).is_terminated(),
    {
        if self.terminated {
            TerminationAction::AlreadyTerminated
        } else {
            self.terminated = true;
            TerminationAction::SignalKill
        }
    }

    /// Executable view of `is_terminated`, for hosts and tests.
    pub fn terminated(&self) -> (b: bool)
        ensures
            b == self.is_terminated(),
    {
        self.terminated
    }
}

/// Releasing a guard twice leaves exactly the state of releasing it once,
/// and that state is terminated: teardown is idempotent.
pub proof fn lemma_release_idempotent(g: ProcessGuard)
    ensures
        released(released(g)) == released(g),
        released(g).is_terminated(),
{
}

} // verus!

//! The single process-wide context shared by every command handler and
//! lifecycle hook: the driver-subprocess guard and the synchronization
//! progress counter.
//!
//! Progress is held as an integer number of basis points (hundredths of a
//! percent), `0` through [`PROGRESS_DONE`], so that the counter is exact and
//! every read returns a whole, well-formed value. The host keeps the state
//! behind its own mutual-exclusion lock and converts to a percentage at the
//! UI boundary.

use vstd::prelude::*;
use crate::guard::{ProcessGuard, TerminationAction};

verus! {

/// Progress value of a completed sync run, in basis points: 100 percent.
pub const PROGRESS_DONE: u32 = 10000;

/// The shared context: built once at startup, after the scraping session has
/// authenticated and the driver subprocess has been spawned.
pub struct SharedState {
    guard: ProcessGuard,
    progress: u32,
    sync_active: bool,
}

impl SharedState {
    /// The synchronization progress, in basis points.
    pub closed spec fn progress_bp(self) -> u32 {
        self.progress
    }

    /// The guard of the one driver subprocess.
    pub closed spec fn driver_guard(self) -> ProcessGuard {
        self.guard
    }

    /// Whether a sync-archive run is in flight. At most one run may be: a
    /// second invocation while this holds is rejected, not queued.
    pub closed spec fn sync_in_flight(self) -> bool {
        self.sync_active
    }

    /// The counter never exceeds 100 percent.
    pub open spec fn wf(self) -> bool {
        self.progress_bp() <= PROGRESS_DONE
    }

    /// Bundles a freshly acquired guard with a progress counter at zero.
    pub fn new(guard: ProcessGuard) -> (s: SharedState)
        ensures
            s.wf(),
            s.progress_bp() == 0,
            s.driver_guard() == guard,
            !s.sync_in_flight(),
    {
        SharedState { guard, progress: 0, sync_active: false }
    }

    /// Claims the one sync slot. The chosen concurrency policy is to
    /// serialize by rejection: while a run is in flight, a second
    /// sync-archive invocation is refused outright rather than queued, and
    /// the caller reports that to the UI. Only a successful claim may start
    /// a run.
    pub fn begin_sync(&mut self) -> (started: bool)
        ensures
            started == !old(self).sync_in_flight(),
            final(self).sync_in_flight(),
            final(self).progress_bp() == old(self).progress_bp(),
            final(self).driver_guard() == old(self).driver_guard(),
    {
        if self.sync_active {
            false
        } else {
            self.sync_active = true;
            true
        }
    }

    /// Returns the sync slot at the end of a run. Only the one runner that
    /// claimed the slot calls this.
    pub fn end_sync(&mut self)
        ensures
            !final(self).sync_in_flight(),
            final(self).progress_bp() == old(self).progress_bp(),
            final(self).driver_guard() == old(self).driver_guard(),
    {
        self.sync_active = false;
    }

    /// Releases the subprocess guard, exactly as [`ProcessGuard::release`]
    /// does, and leaves the progress counter alone.
    pub fn release_guard(&mut self) -> (action: TerminationAction)
        ensures
            final(self).driver_guard() == crate::guard::released(old(self).driver_guard()),
            final(self).driver_guard().is_terminated(),
            final(self).progress_bp() == old(self).progress_bp(),
            final(self).sync_in_flight() == old(self).sync_in_flight(),
            action == TerminationAction::SignalKill <==> !old(self).driver_guard().is_terminated(),
    {
        self.guard.release()
    }

    /// Publishes a new progress value. Only the sync orchestrator writes
    /// here; the guard is untouched.
    pub fn set_progress(&mut self, bp: u32)
        requires
            bp <= PROGRESS_DONE,
        ensures
            final(self).wf(),
            final(self).progress_bp() == bp,
            final(self).driver_guard() == old(self).driver_guard(),
            final(self).sync_in_flight() == old(self).sync_in_flight(),
    {
        self.progress = bp;
    }

    /// Reads the current progress snapshot without mutating anything.
    pub fn get_sync_process(&self) -> (bp: u32)
        ensures
            bp == self.progress_bp(),
    {
        self.progress
    }
}

} // verus!

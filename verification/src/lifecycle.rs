//! Deterministic teardown on every terminal lifecycle event.
//!
//! The host windowing layer fires window-destroyed and application-exit
//! events, and normal scope exit drops the resources; all three paths call
//! [`teardown`], which decides the same two steps every time: close the
//! scraping-client session, then release the subprocess guard. Termination
//! is best-effort: an already-released guard makes the second step a no-op
//! instead of an error, so the paths are safe to run in any combination.

use vstd::prelude::*;
use crate::guard::{ProcessGuard, TerminationAction, released};
use crate::state::SharedState;

verus! {

/// The shutdown path that reached end-of-life first.
#[derive(Clone, Copy, PartialEq, Eq, Structural, Debug)]
pub enum ShutdownPath {
    /// The application left its main scope normally.
    NormalExit,
    /// The host window was destroyed.
    WindowClose,
    /// The application-exit event forced termination.
    ForcedTermination,
}

/// What the host must carry out after a teardown decision.
pub struct TeardownPlan {
    /// Always true: every path closes the scraping-client session.
    pub close_client_session: bool,
    /// Whether the driver subprocess still needs the kill signal.
    pub termination: TerminationAction,
}

/// Decides teardown for any shutdown path: the client session is closed and
/// the guard is released, exactly as by [`ProcessGuard::release`]. The
/// progress counter is left alone. Running a second path afterwards is safe
/// and asks for no second kill.
pub fn teardown(state: &mut SharedState, path: ShutdownPath) -> (plan: TeardownPlan)
    ensures
        final(state).driver_guard() == released(old(state).driver_guard()),
        final(state).driver_guard().is_terminated(),
        final(state).progress_bp() == old(state).progress_bp(),
        final(state).sync_in_flight() == old(state).sync_in_flight(),
        plan.close_client_session,
        plan.termination == TerminationAction::SignalKill
            <==> !old(state).driver_guard().is_terminated(),
{
    let action = state.release_guard();
    TeardownPlan { close_client_session: true, termination: action }
}

/// No shutdown path leaks the subprocess: [`teardown`] leaves the guard in
/// `released` state on every path, and whatever state the guard was in,
/// that state is terminated — also after a second teardown over another
/// path.
pub proof fn lemma_no_leak(g: ProcessGuard)
    ensures
        released(g).is_terminated(),
        released(released(g)).is_terminated(),
{
    crate::guard::lemma_release_idempotent(g);
}

} // verus!

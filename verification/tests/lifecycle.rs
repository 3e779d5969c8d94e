use betternex::guard::{ProcessGuard, TerminationAction};
use betternex::lifecycle::{teardown, ShutdownPath};
use betternex::state::SharedState;

#[test]
fn release_signals_kill_once() {
    let mut guard = ProcessGuard::acquire();
    assert!(!guard.terminated());
    let first = guard.release();
    assert_eq!(first, TerminationAction::SignalKill);
    assert!(guard.terminated());
}

#[test]
fn release_twice_is_idempotent() {
    let mut guard = ProcessGuard::acquire();
    let first = guard.release();
    let second = guard.release();
    assert_eq!(first, TerminationAction::SignalKill);
    assert_eq!(second, TerminationAction::AlreadyTerminated);
    assert!(guard.terminated());
}

#[test]
fn release_three_times_stays_terminated() {
    let mut guard = ProcessGuard::acquire();
    guard.release();
    guard.release();
    let third = guard.release();
    assert_eq!(third, TerminationAction::AlreadyTerminated);
    assert!(guard.terminated());
}

#[test]
fn teardown_normal_exit_kills_subprocess() {
    let mut state = SharedState::new(ProcessGuard::acquire());
    let plan = teardown(&mut state, ShutdownPath::NormalExit);
    assert!(plan.close_client_session);
    assert_eq!(plan.termination, TerminationAction::SignalKill);
}

#[test]
fn teardown_window_close_kills_subprocess() {
    let mut state = SharedState::new(ProcessGuard::acquire());
    let plan = teardown(&mut state, ShutdownPath::WindowClose);
    assert!(plan.close_client_session);
    assert_eq!(plan.termination, TerminationAction::SignalKill);
}

#[test]
fn teardown_forced_termination_kills_subprocess() {
    let mut state = SharedState::new(ProcessGuard::acquire());
    let plan = teardown(&mut state, ShutdownPath::ForcedTermination);
    assert!(plan.close_client_session);
    assert_eq!(plan.termination, TerminationAction::SignalKill);
}

#[test]
fn overlapping_shutdown_paths_are_safe() {
    // Window-close and application-exit are not mutually exclusive: the
    // second path must still close the session but ask for no second kill.
    let mut state = SharedState::new(ProcessGuard::acquire());
    let first = teardown(&mut state, ShutdownPath::WindowClose);
    let second = teardown(&mut state, ShutdownPath::ForcedTermination);
    assert_eq!(first.termination, TerminationAction::SignalKill);
    assert_eq!(second.termination, TerminationAction::AlreadyTerminated);
    assert!(second.close_client_session);
}

#[test]
fn teardown_leaves_progress_alone() {
    let mut state = SharedState::new(ProcessGuard::acquire());
    state.set_progress(4200);
    teardown(&mut state, ShutdownPath::NormalExit);
    assert_eq!(state.get_sync_process(), 4200);
}

#[test]
fn release_guard_reports_like_release() {
    let mut state = SharedState::new(ProcessGuard::acquire());
    assert_eq!(state.release_guard(), TerminationAction::SignalKill);
    assert_eq!(state.release_guard(), TerminationAction::AlreadyTerminated);
}

//! Process-lifecycle and synchronization-orchestration core of a desktop
//! client for a remote learning-management portal.
//!
//! The library owns the decisions of the backend process: when the external
//! browser-driver subprocess must be signalled to terminate, how the shared
//! synchronization-progress counter evolves, what each UI command returns,
//! and in which order a course archive is traversed during a bulk sync.
//! The surrounding host performs the actual I/O (spawning the driver,
//! showing dialogs, saving files) and feeds the results back as plain values.

pub mod commands;
pub mod course;
pub mod guard;
pub mod lifecycle;
pub mod state;
pub mod sync;

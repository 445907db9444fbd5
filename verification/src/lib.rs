//! Core library of a desktop supervisor for a local AI-agent runner.
//!
//! The library holds the verified logic of the supervisor: the session
//! phase lifecycle, the local session/message store, the credential store,
//! the backend supervisor state, and the streaming bridge that translates
//! upstream server-sent events into a normalized frontend event stream.
//! All I/O (HTTP, process spawning, event emission) is driven by a thin
//! unverified shell around this crate.

pub mod backend;
pub mod commands;
pub mod json;
pub mod keyring_store;
pub mod session_store;
pub mod sse;
pub mod stream;
pub mod text;
pub mod types;

pub use types::{RunMode, SessionPhase};

use vstd::prelude::*;

verus! {

/// The (phase, run mode) pairs in which a new run may start.
///
/// A run is accepted exactly when the session is taking idea input and the
/// run is an idea run, or the session awaits approval and the run edits the
/// plan or approves it.
pub fn is_run_mode_allowed(phase: SessionPhase, run_mode: RunMode) -> (r: bool)
    ensures
        r == ((phase == SessionPhase::IdeaInput && run_mode == RunMode::Idea)
            || (phase == SessionPhase::AwaitingApproval && run_mode == RunMode::EditPlan)
            || (phase == SessionPhase::AwaitingApproval && run_mode == RunMode::Approve)),
{
    match (phase, run_mode) {
        (SessionPhase::IdeaInput, RunMode::Idea) => true,
        (SessionPhase::AwaitingApproval, RunMode::EditPlan) => true,
        (SessionPhase::AwaitingApproval, RunMode::Approve) => true,
        _ => false,
    }
}

/// The phase and read-only flag a session moves to once a run has ended.
///
/// A successful idea or plan-edit run leaves the session awaiting approval
/// and writable; a successful approval run completes it read-only; any
/// failed run marks it failed and read-only.
pub fn phase_after_run(run_mode: RunMode, succeeded: bool) -> (r: (SessionPhase, bool))
    ensures
        succeeded && (run_mode == RunMode::Idea || run_mode == RunMode::EditPlan)
            ==> r == (SessionPhase::AwaitingApproval, false),
        succeeded && run_mode == RunMode::Approve ==> r == (SessionPhase::Completed, true),
        !succeeded ==> r == (SessionPhase::Failed, true),
{
    if succeeded {
        match run_mode {
            RunMode::Idea | RunMode::EditPlan => (SessionPhase::AwaitingApproval, false),
            RunMode::Approve => (SessionPhase::Completed, true),
        }
    } else {
        (SessionPhase::Failed, true)
    }
}

} // verus!

//! The run-mode matrix and the phase transition table.

use desktop_core::{is_run_mode_allowed, phase_after_run, RunMode, SessionPhase};

#[test]
fn run_mode_matrix_matches_phase_contract() {
    assert!(is_run_mode_allowed(SessionPhase::IdeaInput, RunMode::Idea));
    assert!(!is_run_mode_allowed(SessionPhase::IdeaInput, RunMode::EditPlan));
    assert!(is_run_mode_allowed(SessionPhase::AwaitingApproval, RunMode::EditPlan));
    assert!(is_run_mode_allowed(SessionPhase::AwaitingApproval, RunMode::Approve));
    assert!(!is_run_mode_allowed(SessionPhase::Completed, RunMode::Idea));
}

#[test]
fn run_mode_matrix_is_exactly_four_pairs() {
    let phases = [
        SessionPhase::IdeaInput,
        SessionPhase::AwaitingApproval,
        SessionPhase::Running,
        SessionPhase::Completed,
        SessionPhase::Failed,
    ];
    let modes = [RunMode::Idea, RunMode::EditPlan, RunMode::Approve];
    let mut allowed = Vec::new();
    for phase in phases {
        for mode in modes {
            if is_run_mode_allowed(phase, mode) {
                allowed.push((phase, mode));
            }
        }
    }
    assert_eq!(
        allowed,
        vec![
            (SessionPhase::IdeaInput, RunMode::Idea),
            (SessionPhase::AwaitingApproval, RunMode::EditPlan),
            (SessionPhase::AwaitingApproval, RunMode::Approve),
        ]
    );
}

#[test]
fn phase_transition_defaults_follow_plan() {
    assert_eq!(
        phase_after_run(RunMode::Idea, true),
        (SessionPhase::AwaitingApproval, false)
    );
    assert_eq!(
        phase_after_run(RunMode::EditPlan, true),
        (SessionPhase::AwaitingApproval, false)
    );
    assert_eq!(
        phase_after_run(RunMode::Approve, true),
        (SessionPhase::Completed, true)
    );
    assert_eq!(phase_after_run(RunMode::Approve, false), (SessionPhase::Failed, true));
}

#[test]
fn phase_transition_failure_is_uniform() {
    for mode in [RunMode::Idea, RunMode::EditPlan, RunMode::Approve] {
        assert_eq!(phase_after_run(mode, false), (SessionPhase::Failed, true));
    }
}

#[test]
fn phase_names_round_trip() {
    assert_eq!(SessionPhase::IdeaInput.as_str(), "idea_input");
    assert_eq!(SessionPhase::AwaitingApproval.as_str(), "awaiting_approval");
    assert_eq!(SessionPhase::Running.as_str(), "running");
    assert_eq!(SessionPhase::Completed.as_str(), "completed");
    assert_eq!(SessionPhase::Failed.as_str(), "failed");
}

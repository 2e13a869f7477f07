use fabro::api::IncompleteRunError;
use fabro::ids::StageId;
use fabro::live_run::LiveRunState;
use fabro::run_lifecycle::{
    github_credential_need, worker_exit_failure, worker_launch_failure, worker_superseded,
    CredentialNeed, InProcessOutcome, LaunchFailurePlan, WorkerLaunchFailure,
};
use fabro::status::{FailureReason, RunControlAction, RunStatus, SuccessReason};

#[test]
fn only_queued_runs_with_a_directory_are_taken() {
    let mut run = LiveRunState::new(RunStatus::Queued);
    assert!(!run.claim_for_start(true, true));
    assert!(!run.claim_for_start(false, false));
    assert_eq!(run.status, RunStatus::Queued);
    assert!(run.claim_for_start(false, true));
    assert_eq!(run.status, RunStatus::Starting);
    assert!(!run.claim_for_start(false, true));
}

#[test]
fn a_run_cancelled_during_setup_does_not_start_running() {
    let mut run = LiveRunState::new(RunStatus::Starting);
    assert!(run.begin_running());
    assert_eq!(run.status, RunStatus::Running);
    let mut cancelled = LiveRunState::new(RunStatus::Failed { reason: FailureReason::Cancelled });
    cancelled.active_non_steerable_agent_stages.push(StageId::new("a", 1));
    assert!(!cancelled.begin_running());
    assert!(cancelled.active_non_steerable_agent_stages.is_empty());
    let mut before = LiveRunState::new(RunStatus::Starting);
    before.finish_cancelled();
    assert_eq!(before.status, RunStatus::Failed { reason: FailureReason::Cancelled });
}

#[test]
fn failing_a_run_records_the_message_and_drops_live_state() {
    let mut run = LiveRunState::new(RunStatus::Running);
    run.active_api_stages.push((StageId::new("a", 1), "s".to_string()));
    run.fail(FailureReason::LaunchFailed, "boom".to_string());
    assert_eq!(run.status, RunStatus::Failed { reason: FailureReason::LaunchFailed });
    assert_eq!(run.error.as_deref(), Some("boom"));
    assert!(run.active_api_stages.is_empty());
}

#[test]
fn in_process_outcomes_set_the_status() {
    let mut ok = LiveRunState::new(RunStatus::Running);
    ok.finish_in_process(InProcessOutcome::Completed);
    assert_eq!(ok.status, RunStatus::Succeeded { reason: SuccessReason::Completed });
    let mut bad = LiveRunState::new(RunStatus::Running);
    bad.finish_in_process(InProcessOutcome::Failed { message: "engine error".to_string() });
    assert_eq!(bad.status, RunStatus::Failed { reason: FailureReason::WorkflowError });
    assert_eq!(bad.error.as_deref(), Some("engine error"));
    let mut stop = LiveRunState::new(RunStatus::Running);
    stop.finish_in_process(InProcessOutcome::Cancelled);
    assert_eq!(stop.status, RunStatus::Failed { reason: FailureReason::Cancelled });
}

#[test]
fn worker_exit_reconciles_the_tracked_status() {
    let mut run = LiveRunState::new(RunStatus::Running);
    run.finish_worker(RunStatus::Succeeded { reason: SuccessReason::Completed }, true, None);
    assert_eq!(run.status, RunStatus::Succeeded { reason: SuccessReason::Completed });
    let mut crashed = LiveRunState::new(RunStatus::Running);
    crashed.finish_worker(RunStatus::Running, false, None);
    assert_eq!(crashed.status, RunStatus::Failed { reason: FailureReason::Terminated });
    let mut clean = LiveRunState::new(RunStatus::Running);
    clean.finish_worker(RunStatus::Running, true, Some("why".to_string()));
    assert_eq!(clean.status, RunStatus::Running);
    assert_eq!(clean.error.as_deref(), Some("why"));
}

#[test]
fn launch_failures_map_to_reasons_and_messages() {
    assert_eq!(
        worker_launch_failure(&WorkerLaunchFailure::Spawn { error: "no such file".to_string() }),
        LaunchFailurePlan {
            reason: FailureReason::LaunchFailed,
            message: "Failed to spawn worker: no such file".to_string(),
            append_failure_event: true,
            kill_worker: false,
        }
    );
    let wait = worker_launch_failure(&WorkerLaunchFailure::Wait { error: "io".to_string() });
    assert_eq!((wait.reason, wait.message.as_str(), wait.kill_worker), (FailureReason::Terminated, "Worker wait failed: io", true));
    let store = worker_launch_failure(&WorkerLaunchFailure::OpenStore { error: "locked".to_string() });
    assert_eq!((store.reason, store.append_failure_event), (FailureReason::WorkflowError, false));
    assert_eq!(worker_launch_failure(&WorkerLaunchFailure::NoPid).message, "Worker process did not report a PID");
}

#[test]
fn superseded_workers_and_exit_failures() {
    assert!(!worker_superseded(None, 7));
    assert!(!worker_superseded(Some(Some(7)), 7));
    assert!(worker_superseded(Some(Some(8)), 7));
    assert!(worker_superseded(Some(None), 7));
    assert_eq!(worker_exit_failure(true, None, "exit status: 1"), None);
    assert_eq!(
        worker_exit_failure(false, Some(RunControlAction::Cancel), "signal: 9"),
        Some((IncompleteRunError::Cancelled, FailureReason::Cancelled))
    );
    assert_eq!(
        worker_exit_failure(false, None, "exit status: 1"),
        Some((
            IncompleteRunError::Engine("Worker exited before emitting a terminal run event: exit status: 1".to_string()),
            FailureReason::Terminated
        ))
    );
}

#[test]
fn github_credentials_are_looked_up_only_when_useful() {
    assert_eq!(github_credential_need(true, true, "local", None, false), CredentialNeed::Required);
    assert_eq!(github_credential_need(false, false, "docker", Some("https://github.com/a/b"), false), CredentialNeed::Optional);
    assert_eq!(github_credential_need(false, false, "docker", Some("  "), false), CredentialNeed::Unneeded);
    assert_eq!(github_credential_need(false, true, "docker", Some("https://x"), true), CredentialNeed::Unneeded);
    assert_eq!(github_credential_need(false, false, "local", None, true), CredentialNeed::Optional);
}

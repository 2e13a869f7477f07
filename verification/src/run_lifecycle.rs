//! The decisions around executing a run, in process or in a worker
//! process: taking a queued run, failing it when a launch step fails, and
//! the status it is left in when execution ends.

use vstd::prelude::*;
use crate::api::{IncompleteRunError, clone_sandbox_can_use_github_credentials, failure_for_incomplete_run};
use crate::live_run::LiveRunState;
use crate::status::{FailureReason, RunControlAction, RunStatus, SuccessReason};
use crate::text::{push_str, string_from_chars, trim, trim_str};

verus! {

impl LiveRunState {
    /// Forgets what the run holds while it executes: its active agent
    /// stages.
    pub fn clear_live_state(&mut self)
        ensures
            final(self).status == old(self).status,
            final(self).error == old(self).error,
            final(self).active_api_stages@.len() == 0,
            final(self).active_non_steerable_agent_stages@.len() == 0,
            final(self).wf(),
    {
        self.active_api_stages = Vec::new();
        self.active_non_steerable_agent_stages = Vec::new();
    }

    /// Fails the run with a reason and message, and forgets its live state.
    pub fn fail(&mut self, reason: FailureReason, message: String)
        ensures
            final(self).status == (RunStatus::Failed { reason }),
            final(self).error == Some(message),
            final(self).active_api_stages@.len() == 0,
            final(self).active_non_steerable_agent_stages@.len() == 0,
            final(self).wf(),
    {
        self.status = RunStatus::Failed { reason };
        self.error = Some(message);
        self.clear_live_state();
    }

    /// Takes a queued run for execution: only while the server is not
    /// shutting down, and only a queued run with a run directory. A taken
    /// run is starting.
    pub fn claim_for_start(&mut self, shutting_down: bool, has_run_dir: bool) -> (taken: bool)
        ensures
            taken == (!shutting_down && old(self).status == RunStatus::Queued && has_run_dir),
            taken ==> final(self).status == RunStatus::Starting,
            taken ==> final(self).error == old(self).error,
            taken ==> final(self).active_api_stages == old(self).active_api_stages,
            taken ==> final(self).active_non_steerable_agent_stages == old(self).active_non_steerable_agent_stages,
            !taken ==> *final(self) == *old(self),
    {
        if shutting_down || self.status != RunStatus::Queued || !has_run_dir {
            return false;
        }
        self.status = RunStatus::Starting;
        true
    }

    /// Moves a starting run to running once its engine is set up. A run no
    /// longer starting was cancelled meanwhile: its live state is dropped
    /// and `false` returned.
    pub fn begin_running(&mut self) -> (running: bool)
        requires
            old(self).wf(),
        ensures
            running == (old(self).status == RunStatus::Starting),
            running ==> final(self).status == RunStatus::Running && final(self).error == old(self).error
                && final(self).active_api_stages == old(self).active_api_stages
                && final(self).active_non_steerable_agent_stages == old(
                self,
            ).active_non_steerable_agent_stages,
            !running ==> final(self).status == old(self).status && final(self).error == old(self).error
                && final(self).active_api_stages@.len() == 0
                && final(self).active_non_steerable_agent_stages@.len() == 0,
            final(self).wf(),
    {
        if self.status == RunStatus::Starting {
            self.status = RunStatus::Running;
            true
        } else {
            self.clear_live_state();
            false
        }
    }

    /// Ends a run that was cancelled before it executed.
    pub fn finish_cancelled(&mut self)
        ensures
            final(self).status == (RunStatus::Failed { reason: FailureReason::Cancelled }),
            final(self).error == old(self).error,
            final(self).active_api_stages@.len() == 0,
            final(self).active_non_steerable_agent_stages@.len() == 0,
            final(self).wf(),
    {
        self.status = RunStatus::Failed { reason: FailureReason::Cancelled };
        self.clear_live_state();
    }
}

/// How an in-process execution ended.
#[derive(Debug, Clone, PartialEq, Eq)]
pub enum InProcessOutcome {
    /// The workflow finished.
    Completed,
    /// The workflow, or its start, was cancelled (also by signal).
    Cancelled,
    /// The workflow, or its start, failed with this error.
    Failed { message: String },
}

/// The status a run is left in after in-process execution.
pub open spec fn in_process_status(outcome: InProcessOutcome) -> RunStatus {
    match outcome {
        InProcessOutcome::Completed => RunStatus::Succeeded { reason: SuccessReason::Completed },
        InProcessOutcome::Cancelled => RunStatus::Failed { reason: FailureReason::Cancelled },
        InProcessOutcome::Failed { .. } => RunStatus::Failed { reason: FailureReason::WorkflowError },
    }
}

impl LiveRunState {
    /// Records how in-process execution ended: succeeded, cancelled, or
    /// failed with the error as the run's error; the live state goes.
    pub fn finish_in_process(&mut self, outcome: InProcessOutcome)
        ensures
            final(self).status == in_process_status(outcome),
            final(self).error == match outcome {
                InProcessOutcome::Failed { message } => Some(message),
                _ => old(self).error,
            },
            final(self).active_api_stages@.len() == 0,
            final(self).active_non_steerable_agent_stages@.len() == 0,
            final(self).wf(),
    {
        match outcome {
            InProcessOutcome::Completed => {
                self.status = RunStatus::Succeeded { reason: SuccessReason::Completed };
            },
            InProcessOutcome::Cancelled => {
                self.status = RunStatus::Failed { reason: FailureReason::Cancelled };
            },
            InProcessOutcome::Failed { message } => {
                self.status = RunStatus::Failed { reason: FailureReason::WorkflowError };
                self.error = Some(message);
            },
        }
        self.clear_live_state();
    }

    /// Records how a worker process ended: the status its event stream
    /// reached when that differs from the tracked one; else, when the
    /// worker exited unsuccessfully, terminated. The stream's failure
    /// message, if any, becomes the run's error; the live state goes.
    pub fn finish_worker(&mut self, final_status: RunStatus, exit_success: bool, failure_message: Option<String>)
        ensures
            final(self).status == if final_status != old(self).status {
                final_status
            } else if !exit_success {
                RunStatus::Failed { reason: FailureReason::Terminated }
            } else {
                old(self).status
            },
            final(self).error == match failure_message {
                Some(m) => Some(m),
                None => old(self).error,
            },
            final(self).active_api_stages@.len() == 0,
            final(self).active_non_steerable_agent_stages@.len() == 0,
            final(self).wf(),
    {
        if final_status != self.status {
            self.status = final_status;
        } else if !exit_success {
            self.status = RunStatus::Failed { reason: FailureReason::Terminated };
        }
        match failure_message {
            Some(m) => {
                self.error = Some(m);
            },
            None => {},
        }
        self.clear_live_state();
    }
}

/// A launch step of a worker process that failed.
#[derive(Debug, Clone, PartialEq, Eq)]
pub enum WorkerLaunchFailure {
    /// The run's store could not be opened.
    OpenStore { error: String },
    /// The worker command could not be built or started.
    Spawn { error: String },
    /// The started worker reported no process id.
    NoPid,
    /// The worker's stdin pipe was missing.
    NoStdin,
    /// The worker's stderr pipe was missing.
    NoStderr,
    /// Waiting on the worker failed.
    Wait { error: String },
    /// The run's final state could not be read after the worker exited.
    FinalState { error: String },
}

/// What a failed launch step leads to: the failure reason and message the
/// run is failed with, whether a failure event is appended to its stream,
/// and whether the worker is killed.
#[derive(Debug, Clone, PartialEq, Eq)]
pub struct LaunchFailurePlan {
    pub reason: FailureReason,
    pub message: String,
    pub append_failure_event: bool,
    pub kill_worker: bool,
}

pub open spec fn launch_failure_spec(f: WorkerLaunchFailure) -> (FailureReason, Seq<char>, bool, bool) {
    match f {
        WorkerLaunchFailure::OpenStore { error } => (
            FailureReason::WorkflowError,
            "Failed to open run store: "@ + error@,
            false,
            false,
        ),
        WorkerLaunchFailure::Spawn { error } => (
            FailureReason::LaunchFailed,
            "Failed to spawn worker: "@ + error@,
            true,
            false,
        ),
        WorkerLaunchFailure::NoPid => (FailureReason::LaunchFailed, "Worker process did not report a PID"@, true, true),
        WorkerLaunchFailure::NoStdin => (FailureReason::LaunchFailed, "Worker stdin pipe was unavailable"@, true, true),
        WorkerLaunchFailure::NoStderr => (FailureReason::LaunchFailed, "Worker stderr pipe was unavailable"@, true, true),
        WorkerLaunchFailure::Wait { error } => (FailureReason::Terminated, "Worker wait failed: "@ + error@, true, true),
        WorkerLaunchFailure::FinalState { error } => (
            FailureReason::WorkflowError,
            "Failed to load final run state: "@ + error@,
            false,
            false,
        ),
    }
}

fn prefixed(prefix: &str, error: &str) -> (s: String)
    ensures
        s@ == prefix@ + error@,
{
    let mut v: Vec<char> = Vec::new();
    push_str(&mut v, prefix);
    push_str(&mut v, error);
    string_from_chars(&v)
}

/// How a failed launch step is handled.
pub fn worker_launch_failure(f: &WorkerLaunchFailure) -> (p: LaunchFailurePlan)
    ensures
        (p.reason, p.message@, p.append_failure_event, p.kill_worker) == launch_failure_spec(*f),
{
    match f {
        WorkerLaunchFailure::OpenStore { error } => LaunchFailurePlan {
            reason: FailureReason::WorkflowError,
            message: prefixed("Failed to open run store: ", error.as_str()),
            append_failure_event: false,
            kill_worker: false,
        },
        WorkerLaunchFailure::Spawn { error } => LaunchFailurePlan {
            reason: FailureReason::LaunchFailed,
            message: prefixed("Failed to spawn worker: ", error.as_str()),
            append_failure_event: true,
            kill_worker: false,
        },
        WorkerLaunchFailure::NoPid => LaunchFailurePlan {
            reason: FailureReason::LaunchFailed,
            message: "Worker process did not report a PID".to_string(),
            append_failure_event: true,
            kill_worker: true,
        },
        WorkerLaunchFailure::NoStdin => LaunchFailurePlan {
            reason: FailureReason::LaunchFailed,
            message: "Worker stdin pipe was unavailable".to_string(),
            append_failure_event: true,
            kill_worker: true,
        },
        WorkerLaunchFailure::NoStderr => LaunchFailurePlan {
            reason: FailureReason::LaunchFailed,
            message: "Worker stderr pipe was unavailable".to_string(),
            append_failure_event: true,
            kill_worker: true,
        },
        WorkerLaunchFailure::Wait { error } => LaunchFailurePlan {
            reason: FailureReason::Terminated,
            message: prefixed("Worker wait failed: ", error.as_str()),
            append_failure_event: true,
            kill_worker: true,
        },
        WorkerLaunchFailure::FinalState { error } => LaunchFailurePlan {
            reason: FailureReason::WorkflowError,
            message: prefixed("Failed to load final run state: ", error.as_str()),
            append_failure_event: false,
            kill_worker: false,
        },
    }
}

/// Whether a worker that exited has been replaced by another execution of
/// the run (the tracked run, if still tracked, names another process).
pub fn worker_superseded(tracked_pid: Option<Option<u32>>, worker_pid: u32) -> (b: bool)
    ensures
        b == match tracked_pid {
            Some(p) => p != Some(worker_pid),
            None => false,
        },
{
    match tracked_pid {
        Some(p) => match p {
            Some(x) => x != worker_pid,
            None => true,
        },
        None => false,
    }
}

/// The failure appended when a worker exits while its run has not ended:
/// as cancelled when a cancel was pending, else as terminated with a
/// message naming the exit status. Nothing when the run already ended.
pub fn worker_exit_failure(run_terminal: bool, pending_control: Option<RunControlAction>, exit_status: &str) -> (r: Option<
    (IncompleteRunError, FailureReason),
>)
    ensures
        run_terminal ==> r is None,
        !run_terminal && pending_control == Some(RunControlAction::Cancel) ==> r == Some(
            (IncompleteRunError::Cancelled, FailureReason::Cancelled),
        ),
        !run_terminal && pending_control != Some(RunControlAction::Cancel) ==> (r matches Some(
            (IncompleteRunError::Engine(m), FailureReason::Terminated),
        ) && m@ == "Worker exited before emitting a terminal run event: "@ + exit_status@),
{
    if run_terminal {
        return None;
    }
    let message = prefixed("Worker exited before emitting a terminal run event: ", exit_status);
    Some(failure_for_incomplete_run(pending_control, message))
}

/// Which GitHub credentials an in-process run looks up: when the run asks
/// for a token, they must be had; when a clone (not a dry run, a sandbox
/// that can use them, a non-blank origin) or a pull request (not a dry run,
/// one configured) could use them, they are tried and their absence
/// tolerated; otherwise none are looked up.
#[derive(Debug, Clone, Copy, PartialEq, Eq, Structural)]
pub enum CredentialNeed {
    Required,
    Optional,
    Unneeded,
}

pub open spec fn credential_need_spec(
    token_requested: bool,
    dry_run: bool,
    sandbox_provider: Seq<char>,
    origin_url: Option<Seq<char>>,
    pull_request_configured: bool,
) -> CredentialNeed {
    let clone_can = !dry_run && (sandbox_provider == "docker"@ || sandbox_provider == "daytona"@) && match origin_url {
        Some(o) => trim(o).len() > 0,
        None => false,
    };
    let pr_can = !dry_run && pull_request_configured;
    if token_requested {
        CredentialNeed::Required
    } else if clone_can || pr_can {
        CredentialNeed::Optional
    } else {
        CredentialNeed::Unneeded
    }
}

pub fn github_credential_need(
    token_requested: bool,
    dry_run: bool,
    sandbox_provider: &str,
    origin_url: Option<&str>,
    pull_request_configured: bool,
) -> (r: CredentialNeed)
    ensures
        r == credential_need_spec(
            token_requested,
            dry_run,
            sandbox_provider@,
            match origin_url {
                Some(o) => Some(o@),
                None => None,
            },
            pull_request_configured,
        ),
{
    let origin_present = match origin_url {
        Some(o) => !trim_str(o).as_str().is_empty(),
        None => false,
    };
    let clone_can = !dry_run && clone_sandbox_can_use_github_credentials(sandbox_provider) && origin_present;
    let pr_can = !dry_run && pull_request_configured;
    if token_requested {
        CredentialNeed::Required
    } else if clone_can || pr_can {
        CredentialNeed::Optional
    } else {
        CredentialNeed::Unneeded
    }
}

} // verus!

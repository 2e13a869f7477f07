//! Steering and interrupting a running run: which requests are taken, and
//! the answer a refused one gets.

use vstd::prelude::*;
use crate::api::RunControlRequest;
use crate::live_run::LiveRunState;
use crate::status::RunStatus;
use crate::text::{trim, trim_str};

verus! {

/// A refused control request: the HTTP status, the message, and the error
/// code clients match on (none for a plain bad request).
#[derive(Debug, Clone, PartialEq, Eq)]
pub struct ControlRejection {
    pub status: u16,
    pub message: String,
    pub code: Option<String>,
}

pub open spec fn rejection_is(r: ControlRejection, status: u16, message: Seq<char>, code: Option<Seq<char>>) -> bool {
    &&& r.status == status
    &&& r.message@ == message
    &&& match r.code {
        Some(c) => code == Some(c@),
        None => code is None,
    }
}

fn reject(status: u16, message: &str, code: &str) -> (r: ControlRejection)
    ensures
        rejection_is(r, status, message@, Some(code@)),
{
    ControlRejection { status, message: message.to_string(), code: Some(code.to_string()) }
}

/// The control request a steer call makes: steering text, after an
/// interrupt when asked. Text that is only whitespace is refused.
pub fn steer_request(text: String, interrupt: bool) -> (r: Result<RunControlRequest, ControlRejection>)
    ensures
        trim(text@).len() == 0 ==> (r matches Err(e) && rejection_is(e, 400, "Steer text must not be empty."@, None)),
        trim(text@).len() > 0 && interrupt ==> r == Ok::<RunControlRequest, ControlRejection>(
            RunControlRequest::InterruptThenSteer { text },
        ),
        trim(text@).len() > 0 && !interrupt ==> r == Ok::<RunControlRequest, ControlRejection>(
            RunControlRequest::Steer { text },
        ),
{
    let trimmed = trim_str(text.as_str());
    if trimmed.as_str().is_empty() {
        return Err(ControlRejection { status: 400, message: "Steer text must not be empty.".to_string(), code: None });
    }
    if interrupt {
        Ok(RunControlRequest::InterruptThenSteer { text })
    } else {
        Ok(RunControlRequest::Steer { text })
    }
}

/// Whether a control request may go to a run, by its live state: the run
/// must exist and be running (a blocked run is answered through its
/// question); when agents run, at least one must be an API-mode session; an
/// interrupt needs such a session; and the run must have a control channel.
pub open spec fn control_verdict(
    run: Option<LiveRunState>,
    control: RunControlRequest,
    has_transport: bool,
) -> Option<(u16, Seq<char>, Option<Seq<char>>)> {
    match run {
        None => Some((404, "Run not found."@, None)),
        Some(r) => match r.status {
            RunStatus::Blocked { .. } => Some(
                (409, "Run is blocked on a question; use the interview-answer endpoint instead."@, Some("use_answer_endpoint"@)),
            ),
            RunStatus::Submitted | RunStatus::Queued | RunStatus::Starting | RunStatus::Paused { .. } => Some(
                (409, "Run is not currently running."@, Some("run_not_steerable"@)),
            ),
            RunStatus::Failed { .. } | RunStatus::Succeeded { .. } | RunStatus::Removing | RunStatus::Dead =>
                Some(
                (
                    409,
                    "Run is no longer steerable."@,
                    Some(
                        if control is Interrupt {
                            "run_not_interruptible"@
                        } else {
                            "run_not_steerable"@
                        },
                    ),
                ),
            ),
            RunStatus::Running => if r.active_api_stages@.len() == 0 && r.active_non_steerable_agent_stages@.len()
                > 0 {
                Some(
                    (
                        409,
                        "All currently running agent stages are CLI-mode and cannot be steered."@,
                        Some("cli_agent_not_steerable"@),
                    ),
                )
            } else if r.active_api_stages@.len() == 0 && (control is Interrupt || control is InterruptThenSteer) {
                Some((409, "Run has no active API-mode agent session."@, Some("no_active_api_session"@)))
            } else if !has_transport {
                Some((503, "Run has no live worker control channel."@, Some("worker_control_unavailable"@)))
            } else {
                None
            },
        },
    }
}

/// Checks a control request against the run's live state; `Ok` means it
/// is handed to the worker.
pub fn control_gate(run: Option<&LiveRunState>, control: &RunControlRequest, has_transport: bool) -> (r: Result<
    (),
    ControlRejection,
>)
    ensures
        match control_verdict(
            match run {
                Some(x) => Some(*x),
                None => None,
            },
            *control,
            has_transport,
        ) {
            None => r is Ok,
            Some((status, message, code)) => r matches Err(e) && rejection_is(e, status, message, code),
        },
{
    let run = match run {
        None => {
            return Err(ControlRejection { status: 404, message: "Run not found.".to_string(), code: None });
        },
        Some(r) => r,
    };
    match run.status {
        RunStatus::Blocked { .. } => {
            return Err(
                reject(
                    409,
                    "Run is blocked on a question; use the interview-answer endpoint instead.",
                    "use_answer_endpoint",
                ),
            );
        },
        RunStatus::Submitted | RunStatus::Queued | RunStatus::Starting | RunStatus::Paused { .. } => {
            return Err(reject(409, "Run is not currently running.", "run_not_steerable"));
        },
        RunStatus::Failed { .. } | RunStatus::Succeeded { .. } | RunStatus::Removing | RunStatus::Dead => {
            let code = match control {
                RunControlRequest::Interrupt => "run_not_interruptible",
                _ => "run_not_steerable",
            };
            return Err(reject(409, "Run is no longer steerable.", code));
        },
        RunStatus::Running => {},
    }
    if run.active_api_stages.len() == 0 && run.active_non_steerable_agent_stages.len() > 0 {
        return Err(
            reject(
                409,
                "All currently running agent stages are CLI-mode and cannot be steered.",
                "cli_agent_not_steerable",
            ),
        );
    }
    if run.active_api_stages.len() == 0 && control.requires_active_api_session() {
        return Err(reject(409, "Run has no active API-mode agent session.", "no_active_api_session"));
    }
    if !has_transport {
        return Err(reject(503, "Run has no live worker control channel.", "worker_control_unavailable"));
    }
    Ok(())
}

/// What handing a request to the worker came to.
#[derive(Debug, Clone, Copy, PartialEq, Eq, Structural)]
pub enum TransportOutcome {
    Delivered,
    Timeout,
    Closed,
}

/// The answer to a control request the worker was handed: accepted (202),
/// or unavailable when the channel timed out or is closed.
pub fn control_outcome(outcome: TransportOutcome) -> (r: Result<u16, ControlRejection>)
    ensures
        outcome == TransportOutcome::Delivered ==> r == Ok::<u16, ControlRejection>(202),
        outcome == TransportOutcome::Timeout ==> (r matches Err(e) && rejection_is(
            e,
            503,
            "Worker control channel timed out."@,
            Some("worker_control_unavailable"@),
        )),
        outcome == TransportOutcome::Closed ==> (r matches Err(e) && rejection_is(
            e,
            503,
            "Worker control channel is closed."@,
            Some("worker_control_unavailable"@),
        )),
{
    match outcome {
        TransportOutcome::Delivered => Ok(202),
        TransportOutcome::Timeout => Err(reject(503, "Worker control channel timed out.", "worker_control_unavailable")),
        TransportOutcome::Closed => Err(reject(503, "Worker control channel is closed.", "worker_control_unavailable")),
    }
}

/// A running run with a control channel and an API-mode agent session
/// takes every kind of control request.
pub proof fn law_running_api_session_is_steerable(run: LiveRunState, control: RunControlRequest)
    requires
        run.status == RunStatus::Running,
        run.active_api_stages@.len() > 0,
    ensures
        control_verdict(Some(run), control, true) is None,
{
}

/// Plain steering of a running run with no agent stage active is taken:
/// the worker holds it for the next session.
pub proof fn law_idle_running_run_buffers_steering(run: LiveRunState, text: String)
    requires
        run.status == RunStatus::Running,
        run.active_api_stages@.len() == 0,
        run.active_non_steerable_agent_stages@.len() == 0,
    ensures
        control_verdict(Some(run), RunControlRequest::Steer { text }, true) is None,
        control_verdict(Some(run), RunControlRequest::Interrupt, true) is Some,
{
}

} // verus!

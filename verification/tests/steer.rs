use fabro::api::{worker_args, worker_log_level, RunControlRequest, RunExecutionMode};
use fabro::ids::{RunId, StageId};
use fabro::live_run::LiveRunState;
use fabro::status::{BlockedReason, RunStatus, SuccessReason};
use fabro::steer::{control_gate, control_outcome, steer_request, ControlRejection, TransportOutcome};

fn rejection(status: u16, message: &str, code: Option<&str>) -> ControlRejection {
    ControlRejection { status, message: message.to_string(), code: code.map(ToOwned::to_owned) }
}

#[test]
fn steer_text_must_not_be_blank() {
    assert_eq!(steer_request("  \n".to_string(), false), Err(rejection(400, "Steer text must not be empty.", None)));
    assert_eq!(
        steer_request("go left".to_string(), true),
        Ok(RunControlRequest::InterruptThenSteer { text: "go left".to_string() })
    );
    assert_eq!(steer_request("go".to_string(), false), Ok(RunControlRequest::Steer { text: "go".to_string() }));
}

#[test]
fn control_gate_checks_status_sessions_and_channel() {
    let steer = RunControlRequest::Steer { text: "x".to_string() };
    assert_eq!(control_gate(None, &steer, true), Err(rejection(404, "Run not found.", None)));
    let blocked = LiveRunState::new(RunStatus::Blocked { blocked_reason: BlockedReason::HumanInputRequired });
    assert_eq!(control_gate(Some(&blocked), &steer, true).unwrap_err().code.as_deref(), Some("use_answer_endpoint"));
    let queued = LiveRunState::new(RunStatus::Queued);
    assert_eq!(control_gate(Some(&queued), &steer, true).unwrap_err().message, "Run is not currently running.");
    let done = LiveRunState::new(RunStatus::Succeeded { reason: SuccessReason::Completed });
    assert_eq!(
        control_gate(Some(&done), &RunControlRequest::Interrupt, true).unwrap_err().code.as_deref(),
        Some("run_not_interruptible")
    );
    assert_eq!(control_gate(Some(&done), &steer, true).unwrap_err().code.as_deref(), Some("run_not_steerable"));

    let mut running = LiveRunState::new(RunStatus::Running);
    assert_eq!(control_gate(Some(&running), &steer, true), Ok(()));
    assert_eq!(
        control_gate(Some(&running), &RunControlRequest::Interrupt, true).unwrap_err().code.as_deref(),
        Some("no_active_api_session")
    );
    assert_eq!(control_gate(Some(&running), &steer, false).unwrap_err().status, 503);
    running.active_non_steerable_agent_stages.push(StageId::new("code", 1));
    assert_eq!(
        control_gate(Some(&running), &steer, true).unwrap_err().code.as_deref(),
        Some("cli_agent_not_steerable")
    );
    running.active_api_stages.push((StageId::new("chat", 1), "s1".to_string()));
    assert_eq!(control_gate(Some(&running), &RunControlRequest::Interrupt, true), Ok(()));
}

#[test]
fn transport_outcomes_map_to_responses() {
    assert_eq!(control_outcome(TransportOutcome::Delivered), Ok(202));
    assert_eq!(
        control_outcome(TransportOutcome::Timeout),
        Err(rejection(503, "Worker control channel timed out.", Some("worker_control_unavailable")))
    );
    assert_eq!(control_outcome(TransportOutcome::Closed).unwrap_err().message, "Worker control channel is closed.");
}

#[test]
fn worker_argv_and_log_level() {
    let id: RunId = "01JT56VE4Z5NZ814GZN2JZD65A".parse().unwrap();
    assert_eq!(worker_args("127.0.0.1:3000", "/var/fabro", "/var/fabro/runs/x", id, RunExecutionMode::Resume), vec![
        "__run-worker", "--server", "127.0.0.1:3000", "--storage-dir", "/var/fabro", "--run-dir",
        "/var/fabro/runs/x", "--run-id", "01JT56VE4Z5NZ814GZN2JZD65A", "--mode", "resume",
    ]);
    assert_eq!(worker_log_level(true, Some("debug")), None);
    assert_eq!(worker_log_level(false, Some("debug")), Some("debug".to_string()));
    assert_eq!(worker_log_level(false, None), None);
}

use fabro::ids::RunId;
use fabro::status::{
    parse_run_status,
    BlockedReason, FailureReason, InvalidTransition, RunControlAction, RunStatus, SuccessReason,
    TerminalStatus,
};

#[test]
fn queued_and_blocked_are_active() {
    let queued = RunStatus::Queued;
    let blocked = RunStatus::Blocked {
        blocked_reason: BlockedReason::HumanInputRequired,
    };

    assert_eq!(queued.to_string(), "queued");
    assert!(queued.is_active());
    assert!(!queued.is_terminal());

    assert_eq!(blocked.to_string(), "blocked(human_input_required)");
    assert!(blocked.is_active());
    assert!(!blocked.is_terminal());
}

#[test]
fn canonical_blocked_transitions_are_allowed() {
    let submitted = RunStatus::Submitted;
    let queued = RunStatus::Queued;
    let running = RunStatus::Running;
    let blocked = RunStatus::Blocked {
        blocked_reason: BlockedReason::HumanInputRequired,
    };
    let paused = RunStatus::Paused {
        prior_block: Some(BlockedReason::HumanInputRequired),
    };
    let failed = RunStatus::Failed {
        reason: FailureReason::WorkflowError,
    };

    assert!(submitted.can_transition_to(queued));
    assert!(submitted.can_transition_to(RunStatus::Starting));
    assert!(submitted.can_transition_to(RunStatus::Failed {
        reason: FailureReason::Cancelled,
    }));
    assert!(queued.can_transition_to(RunStatus::Submitted));
    assert!(failed.can_transition_to(RunStatus::Submitted));
    assert!(queued.can_transition_to(RunStatus::Starting));
    assert!(queued.can_transition_to(RunStatus::Failed {
        reason: FailureReason::Cancelled,
    }));
    assert!(queued.can_transition_to(RunStatus::Failed {
        reason: FailureReason::Terminated,
    }));
    assert!(running.can_transition_to(blocked));
    assert!(blocked.can_transition_to(running));
    assert!(blocked.can_transition_to(paused));
    assert!(blocked.can_transition_to(RunStatus::Failed {
        reason: FailureReason::WorkflowError,
    }));
}

#[test]
fn success_and_failure_reasons_parse_and_round_trip() {
    let success = SuccessReason::from_str("completed").expect("completed should parse");
    assert_eq!(success, SuccessReason::Completed);
    assert_eq!(success.to_string(), "completed");

    let failure = FailureReason::from_str("cancelled").expect("cancelled should parse");
    assert_eq!(failure, FailureReason::Cancelled);
    assert_eq!(failure.to_string(), "cancelled");
}

#[test]
fn run_statuses_can_transition_to_removing_for_deletion() {
    let removing = RunStatus::Removing;
    for status in [
        RunStatus::Submitted,
        RunStatus::Queued,
        RunStatus::Starting,
        RunStatus::Running,
        RunStatus::Blocked {
            blocked_reason: BlockedReason::HumanInputRequired,
        },
        RunStatus::Paused { prior_block: None },
        RunStatus::Succeeded {
            reason: SuccessReason::Completed,
        },
        RunStatus::Failed {
            reason: FailureReason::Cancelled,
        },
        RunStatus::Dead,
    ] {
        assert!(
            status.can_transition_to(removing),
            "{} should transition to removing",
            status.to_string()
        );
    }
    assert!(!removing.can_transition_to(removing));
}

#[test]
fn immutable_terminal_statuses_are_also_terminal() {
    for status in [
        RunStatus::Succeeded {
            reason: SuccessReason::Completed,
        },
        RunStatus::Failed {
            reason: FailureReason::Cancelled,
        },
        RunStatus::Dead,
    ] {
        assert!(status.is_terminal(), "{} should be terminal", status.to_string());
        assert!(status.is_immutable(), "{} should be immutable", status.to_string());
    }
}

#[test]
fn invalid_transition_carries_from_and_to() {
    let from = RunStatus::Succeeded {
        reason: SuccessReason::Completed,
    };
    let to = RunStatus::Running;
    let err = from.transition_to(to).expect_err("should reject");
    assert_eq!(err, InvalidTransition { from, to });
}

#[test]
fn invalid_transition_message_names_both_statuses() {
    let err = InvalidTransition {
        from: RunStatus::Dead,
        to: RunStatus::Running,
    };
    assert_eq!(err.to_string(), "invalid status transition: dead -> running");
}

#[test]
fn allowed_transition_returns_the_target() {
    let r = RunStatus::Running.transition_to(RunStatus::Succeeded {
        reason: SuccessReason::PartialSuccess,
    });
    assert_eq!(
        r,
        Ok(RunStatus::Succeeded {
            reason: SuccessReason::PartialSuccess
        })
    );
}

#[test]
fn status_display_strings_wrap_reasons() {
    assert_eq!(
        RunStatus::Failed {
            reason: FailureReason::SandboxInitFailed
        }
        .to_string(),
        "failed(sandbox_init_failed)"
    );
    assert_eq!(
        RunStatus::Paused {
            prior_block: Some(BlockedReason::HumanInputRequired)
        }
        .to_string(),
        "paused(human_input_required)"
    );
    assert_eq!(RunStatus::Paused { prior_block: None }.to_string(), "paused");
    assert_eq!(
        RunStatus::Succeeded {
            reason: SuccessReason::PartialSuccess
        }
        .to_string(),
        "succeeded(partial_success)"
    );
    assert_eq!(TerminalStatus::Dead.to_string(), "dead");
}

#[test]
fn unknown_reason_strings_are_rejected() {
    assert!(SuccessReason::from_str("done").is_err());
    assert!(FailureReason::from_str("").is_err());
    assert_eq!(
        FailureReason::from_str("budget_exhausted").unwrap(),
        FailureReason::BudgetExhausted
    );
}

#[test]
fn terminal_status_converts_to_run_status() {
    let t = TerminalStatus::Failed {
        reason: FailureReason::Terminated,
    };
    let r: RunStatus = t.into();
    assert_eq!(
        r,
        RunStatus::Failed {
            reason: FailureReason::Terminated
        }
    );
    assert_eq!(r.terminal_status(), Some(t));
    assert_eq!(RunStatus::Running.terminal_status(), None);
}

#[test]
fn blocked_reason_is_reported_for_blocked_runs_only() {
    let blocked = RunStatus::Blocked {
        blocked_reason: BlockedReason::HumanInputRequired,
    };
    assert_eq!(blocked.blocked_reason(), Some(BlockedReason::HumanInputRequired));
    assert_eq!(RunStatus::Queued.blocked_reason(), None);
    let _ = RunControlAction::Pause;
}

#[test]
fn status_names_parse_with_their_reasons() {
    assert_eq!(
        parse_run_status("failed", Some("cancelled")),
        Some(RunStatus::Failed { reason: FailureReason::Cancelled })
    );
    assert_eq!(
        parse_run_status("failed", Some("unexpected_reason")),
        Some(RunStatus::Failed { reason: FailureReason::WorkflowError })
    );
    assert_eq!(
        parse_run_status("succeeded", None),
        Some(RunStatus::Succeeded { reason: SuccessReason::Completed })
    );
    assert_eq!(
        parse_run_status("blocked", None),
        Some(RunStatus::Blocked { blocked_reason: BlockedReason::HumanInputRequired })
    );
    assert_eq!(parse_run_status("paused", Some("x")), Some(RunStatus::Paused { prior_block: None }));
    assert_eq!(parse_run_status("archived", None), None);
}

#[test]
fn run_id_text_parses_back_to_the_id() {
    let id = RunId::from_u128(0x0196_a1b2_c3d4_e5f6_0718_293a_4b5c_6d7e);
    let text = id.to_string();
    assert_eq!(text.len(), 26);
    assert_eq!(RunId::parse(&text).unwrap(), id);
}

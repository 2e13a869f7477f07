use fabro::ids::{RunId, StageId};
use fabro::projection::{
    BilledModelUsage, CommandTermination, DiffSummary, NodeOutcome, RunProjection, StageOutcome, StageState,
};
use fabro::reducer::{render_with_causes, CompletionStatus, EventBody, ReduceError, RunEvent};
use fabro::status::{BlockedReason, FailureReason, RunStatus, SuccessReason};

fn run_1() -> RunId {
    RunId::from_u128(1)
}

fn run_2() -> RunId {
    RunId::from_u128(2)
}

fn event_at(seq: u32, ts: i64, body: EventBody, node_id: Option<&str>) -> RunEvent {
    RunEvent {
        seq,
        ts,
        run_id: run_1(),
        node_id: node_id.map(ToOwned::to_owned),
        stage_id: None,
        session_id: None,
        body,
    }
}

fn test_event(seq: u32, body: EventBody, node_id: Option<&str>) -> RunEvent {
    event_at(seq, 1_700_000_000_000 + i64::from(seq), body, node_id)
}

fn test_stage_event(seq: u32, body: EventBody, stage_id: StageId) -> RunEvent {
    let mut event = test_event(seq, body, Some(stage_id.node_id()));
    event.stage_id = Some(stage_id);
    event
}

fn test_usage(model_id: &str, input_tokens: i64, output_tokens: i64) -> BilledModelUsage {
    BilledModelUsage {
        provider: "openai".to_string(),
        model_id: model_id.to_string(),
        input_tokens,
        output_tokens,
        total_usd_micros: Some(input_tokens + output_tokens),
    }
}

fn billed_usage() -> BilledModelUsage {
    BilledModelUsage {
        provider: "openai".to_string(),
        model_id: "gpt-test".to_string(),
        input_tokens: 10,
        output_tokens: 5,
        total_usd_micros: Some(123),
    }
}

fn completed_props(duration_ms: u64, status: StageOutcome) -> EventBody {
    EventBody::StageCompleted {
        status,
        notes: None,
        failure_message: None,
        duration_ms,
        billing: None,
        response: None,
        node_visit: None,
    }
}

fn failed_props(duration_ms: u64, will_retry: bool) -> EventBody {
    EventBody::StageFailed {
        will_retry,
        failure_message: Some("boom".to_string()),
        duration_ms,
        billing: None,
    }
}

fn checkpoint(
    current_node: &str,
    completed_nodes: &[&str],
    node_outcomes: Vec<(String, NodeOutcome)>,
    node_visits: Vec<(String, u64)>,
    diff_summary: Option<DiffSummary>,
) -> EventBody {
    EventBody::CheckpointCompleted {
        current_node: current_node.to_string(),
        completed_nodes: completed_nodes.iter().map(|n| (*n).to_string()).collect(),
        next_node_id: None,
        git_commit_sha: None,
        node_outcomes,
        node_visits,
        diff: None,
        diff_summary,
    }
}

fn skipped(notes: &str) -> NodeOutcome {
    NodeOutcome {
        status: StageOutcome::Skipped,
        notes: Some(notes.to_string()),
        failure_message: None,
    }
}

fn run_completed(reason: SuccessReason, diff_summary: Option<DiffSummary>) -> EventBody {
    EventBody::RunCompleted {
        reason,
        status: CompletionStatus::Known(StageOutcome::Succeeded),
        duration_ms: 42,
        final_git_commit_sha: None,
        final_patch: None,
        diff_summary,
    }
}

#[test]
fn last_event_at_tracks_most_recent_event_timestamp() {
    // 2026-04-20T12:00:00Z and 2026-04-20T12:05:30Z in Unix milliseconds;
    // the event names "run_submitted" and "run_running" are not run event
    // names, so both arrive as events the projection does not read.
    let earlier = event_at(1, 1_776_686_400_000, EventBody::Other, None);
    let later = event_at(2, 1_776_686_730_000, EventBody::Other, None);

    let state = RunProjection::apply_events(&vec![earlier, later.clone()]).unwrap();

    assert_eq!(state.last_event_at, Some(later.ts));

    // Empty projections still have no timestamp.
    let empty = RunProjection::new();
    assert_eq!(empty.last_event_at, None);
}

#[test]
fn stage_failed_event_captures_duration_and_usage_per_visit() {
    let mut state = RunProjection::new();
    let stage_id = StageId::new("build", 1);
    let usage = test_usage("gpt-5.2", 321, 54);

    state
        .apply_event(&test_stage_event(2, EventBody::StageStarted, stage_id.clone()))
        .unwrap();
    state
        .apply_event(&test_event(
            3,
            EventBody::StageFailed {
                will_retry: false,
                failure_message: Some("provider failed".to_string()),
                duration_ms: 654,
                billing: Some(usage.clone()),
            },
            Some("build"),
        ))
        .unwrap();

    let stage = state.stage(&stage_id).unwrap();
    assert_eq!(stage.duration_ms, Some(654));
    assert_eq!(stage.usage.as_ref(), Some(&usage));
}

#[test]
fn checkpoint_completed_creates_projection_entry_for_skipped_stage() {
    let mut state = RunProjection::new();
    let stage_id = StageId::new("skip_me", 1);

    state
        .apply_event(&test_event(
            5,
            EventBody::CheckpointCompleted {
                current_node: "next".to_string(),
                completed_nodes: vec!["skip_me".to_string()],
                next_node_id: Some("next".to_string()),
                git_commit_sha: None,
                node_outcomes: vec![("skip_me".to_string(), skipped("condition was false"))],
                node_visits: vec![("skip_me".to_string(), 1)],
                diff: None,
                diff_summary: None,
            },
            None,
        ))
        .unwrap();

    let stage = state.stage(&stage_id).unwrap();
    assert_eq!(stage.first_event_seq, 5);
    let completion = stage.completion.as_ref().unwrap();
    assert_eq!(completion.outcome, StageOutcome::Skipped);
    assert_eq!(completion.notes.as_deref(), Some("condition was false"));
}

#[test]
fn queued_and_blocked_events_drive_projection_and_summary_fields() {
    let mut state = RunProjection::new();

    state.apply_event(&test_event(1, EventBody::RunQueued, None)).unwrap();
    assert_eq!(state.status(), Some(RunStatus::Queued));

    state.apply_event(&test_event(2, EventBody::RunStarting, None)).unwrap();
    state.apply_event(&test_event(3, EventBody::RunRunning, None)).unwrap();
    state.apply_event(&test_event(4, EventBody::RunPaused, None)).unwrap();
    state
        .apply_event(&test_event(
            5,
            EventBody::RunBlocked { blocked_reason: BlockedReason::HumanInputRequired },
            None,
        ))
        .unwrap();

    assert_eq!(
        state.status(),
        Some(RunStatus::Paused { prior_block: Some(BlockedReason::HumanInputRequired) })
    );
}

#[test]
fn run_unblocked_clears_blocked_reason_and_restores_running() {
    let mut state = RunProjection::new();

    state
        .apply_event(&test_event(
            1,
            EventBody::RunBlocked { blocked_reason: BlockedReason::HumanInputRequired },
            None,
        ))
        .unwrap();
    state.apply_event(&test_event(2, EventBody::RunUnblocked, None)).unwrap();

    assert_eq!(state.status(), Some(RunStatus::Running));
}

#[test]
fn run_unblocked_while_paused_clears_blocked_reason_without_changing_paused_status() {
    let mut state = RunProjection::new();

    state
        .apply_event(&test_event(
            1,
            EventBody::RunBlocked { blocked_reason: BlockedReason::HumanInputRequired },
            None,
        ))
        .unwrap();
    state.apply_event(&test_event(2, EventBody::RunPaused, None)).unwrap();
    state.apply_event(&test_event(3, EventBody::RunUnblocked, None)).unwrap();

    assert_eq!(state.status(), Some(RunStatus::Paused { prior_block: None }));
}

#[test]
fn unpause_to_still_blocked_yields_visible_blocked_after_event_sequence() {
    let mut state = RunProjection::new();

    state
        .apply_event(&test_event(
            1,
            EventBody::RunBlocked { blocked_reason: BlockedReason::HumanInputRequired },
            None,
        ))
        .unwrap();
    state.apply_event(&test_event(2, EventBody::RunPaused, None)).unwrap();
    state.apply_event(&test_event(3, EventBody::RunUnpaused, None)).unwrap();
    state
        .apply_event(&test_event(
            4,
            EventBody::RunBlocked { blocked_reason: BlockedReason::HumanInputRequired },
            None,
        ))
        .unwrap();

    assert_eq!(
        state.status(),
        Some(RunStatus::Blocked { blocked_reason: BlockedReason::HumanInputRequired })
    );
}

#[test]
fn run_failed_with_final_patch_populates_projection() {
    let mut state = RunProjection::new();
    let patch = "diff --git a/foo.rs b/foo.rs\n@@ -1 +1 @@\n-a\n+b\n";
    state
        .apply_event(&test_event(
            1,
            EventBody::RunFailed {
                reason: FailureReason::WorkflowError,
                error: "boom".to_string(),
                causes: Vec::new(),
                duration_ms: 42,
                git_commit_sha: Some("abc123".to_string()),
                final_patch: Some(patch.to_string()),
                diff_summary: None,
            },
            None,
        ))
        .unwrap();

    assert_eq!(state.final_patch.as_deref(), Some(patch));
}

#[test]
fn patch_bearing_events_roll_up_diff_summary_without_blanking_prior_value() {
    let mut state = RunProjection::new();

    state
        .apply_event(&test_event(
            1,
            checkpoint(
                "build",
                &["build"],
                Vec::new(),
                Vec::new(),
                Some(DiffSummary { files_changed: 2, additions: 10, deletions: 3 }),
            ),
            Some("build"),
        ))
        .unwrap();
    assert_eq!(
        state.diff_summary,
        Some(DiffSummary { files_changed: 2, additions: 10, deletions: 3 })
    );

    state
        .apply_event(&test_event(
            2,
            checkpoint("review", &["build", "review"], Vec::new(), Vec::new(), None),
            Some("review"),
        ))
        .unwrap();
    assert_eq!(state.diff_summary.unwrap().files_changed, 2);

    state
        .apply_event(&test_event(
            3,
            run_completed(
                SuccessReason::Completed,
                Some(DiffSummary { files_changed: 4, additions: 18, deletions: 7 }),
            ),
            None,
        ))
        .unwrap();
    assert_eq!(
        state.diff_summary,
        Some(DiffSummary { files_changed: 4, additions: 18, deletions: 7 })
    );

    let mut failed_state = RunProjection::new();
    failed_state
        .apply_event(&test_event(
            1,
            EventBody::RunFailed {
                reason: FailureReason::WorkflowError,
                error: "boom".to_string(),
                causes: Vec::new(),
                duration_ms: 42,
                git_commit_sha: None,
                final_patch: None,
                diff_summary: Some(DiffSummary { files_changed: 5, additions: 20, deletions: 8 }),
            },
            None,
        ))
        .unwrap();
    assert_eq!(
        failed_state.diff_summary,
        Some(DiffSummary { files_changed: 5, additions: 20, deletions: 8 })
    );
}

#[test]
fn run_failed_projection_renders_causes() {
    let mut state = RunProjection::new();
    state
        .apply_event(&test_event(
            1,
            EventBody::RunFailed {
                reason: FailureReason::WorkflowError,
                error: "Engine error: Failed to initialize sandbox".to_string(),
                causes: vec![
                    "Failed to pull Docker image buildpack-deps:noble".to_string(),
                    "connection refused".to_string(),
                ],
                duration_ms: 42,
                git_commit_sha: None,
                final_patch: None,
                diff_summary: None,
            },
            None,
        ))
        .unwrap();

    assert_eq!(
        state.conclusion.unwrap().failure_reason.as_deref(),
        Some(
            "Engine error: Failed to initialize sandbox\n  caused by: Failed to pull Docker image buildpack-deps:noble\n  caused by: connection refused"
        )
    );
}

#[test]
fn run_superseded_by_populates_projection_and_summary() {
    let mut state = RunProjection::new();
    state
        .apply_event(&test_event(1, EventBody::RunSupersededBy { new_run_id: run_2() }, None))
        .unwrap();

    assert_eq!(state.superseded_by, Some(run_2()));
}

#[test]
fn duplicate_event_noops_without_bumping_status_updated_at() {
    let mut state = RunProjection::new();
    // 2026-04-07T12:00:00Z and 2026-04-07T12:01:00Z in Unix milliseconds.
    state
        .apply_event(&event_at(1, 1_775_563_200_000, EventBody::RunRunning, None))
        .unwrap();
    let first_updated_at = state.status_updated_at;

    state
        .apply_event(&event_at(2, 1_775_563_260_000, EventBody::RunRunning, None))
        .unwrap();

    assert_eq!(state.status(), Some(RunStatus::Running));
    assert_eq!(state.status_updated_at, first_updated_at);
}

#[test]
fn stage_started_records_started_at_and_running_state() {
    let mut state = RunProjection::new();
    let stage_id = StageId::new("build", 1);

    state
        .apply_event(&test_stage_event(3, EventBody::StageStarted, stage_id.clone()))
        .unwrap();

    let stage = state.stage(&stage_id).unwrap();
    assert_eq!(stage.state, Some(StageState::Running));
    assert!(stage.started_at.is_some());
    assert_eq!(stage.effective_state(), StageState::Running);
}

#[test]
fn stage_completed_records_duration_usage_and_terminal_state() {
    let mut state = RunProjection::new();
    let stage_id = StageId::new("build", 1);
    let usage = billed_usage();

    state
        .apply_event(&test_stage_event(1, EventBody::StageStarted, stage_id.clone()))
        .unwrap();
    let props = match completed_props(42, StageOutcome::Succeeded) {
        EventBody::StageCompleted { status, notes, failure_message, duration_ms, response, node_visit, .. } => {
            EventBody::StageCompleted {
                status,
                notes,
                failure_message,
                duration_ms,
                billing: Some(usage.clone()),
                response,
                node_visit,
            }
        },
        other => other,
    };
    state.apply_event(&test_event(2, props, Some("build"))).unwrap();

    let stage = state.stage(&stage_id).unwrap();
    assert_eq!(stage.duration_ms, Some(42));
    assert_eq!(stage.usage.as_ref(), Some(&usage));
    assert_eq!(stage.state, Some(StageState::Succeeded));
    assert_eq!(stage.effective_state(), StageState::Succeeded);
}

#[test]
fn stage_failed_records_duration_and_failed_state() {
    let mut state = RunProjection::new();
    let stage_id = StageId::new("build", 1);

    state
        .apply_event(&test_stage_event(1, EventBody::StageStarted, stage_id.clone()))
        .unwrap();
    state.apply_event(&test_event(2, failed_props(10, false), Some("build"))).unwrap();

    let stage = state.stage(&stage_id).unwrap();
    assert_eq!(stage.duration_ms, Some(10));
    assert_eq!(stage.state, Some(StageState::Failed));
}

#[test]
fn stage_retrying_sets_retrying_state() {
    let mut state = RunProjection::new();
    let stage_id = StageId::new("build", 1);

    state
        .apply_event(&test_stage_event(1, EventBody::StageStarted, stage_id.clone()))
        .unwrap();
    state.apply_event(&test_event(2, failed_props(10, true), Some("build"))).unwrap();
    state.apply_event(&test_event(3, EventBody::StageRetrying, Some("build"))).unwrap();

    let stage = state.stage(&stage_id).unwrap();
    assert_eq!(stage.state, Some(StageState::Retrying));
}

#[test]
fn stage_started_after_retrying_returns_to_running_and_resets_attempt_data() {
    let mut state = RunProjection::new();
    let stage_id = StageId::new("build", 1);

    state
        .apply_event(&test_stage_event(1, EventBody::StageStarted, stage_id.clone()))
        .unwrap();
    state.apply_event(&test_event(2, failed_props(10, true), Some("build"))).unwrap();
    state.apply_event(&test_event(3, EventBody::StageRetrying, Some("build"))).unwrap();
    state
        .apply_event(&test_stage_event(4, EventBody::StageStarted, stage_id.clone()))
        .unwrap();

    let stage = state.stage(&stage_id).unwrap();
    assert_eq!(stage.state, Some(StageState::Running));
    // Prior attempt's terminal data must not leak into the new attempt.
    assert!(stage.completion.is_none());
    assert_eq!(stage.duration_ms, None);
}

#[test]
fn checkpoint_keeps_existing_stage_entries_and_records_history() {
    let mut state = RunProjection::new();
    let done = StageId::new("done", 1);
    state.apply_event(&test_stage_event(1, EventBody::StageStarted, done.clone())).unwrap();

    let outcomes = vec![
        ("done".to_string(), skipped("not again")),
        ("later".to_string(), skipped("not needed")),
        (
            "built".to_string(),
            NodeOutcome { status: StageOutcome::Succeeded, notes: None, failure_message: None },
        ),
    ];
    let visits = vec![("later".to_string(), 3), ("built".to_string(), 1)];
    state
        .apply_event(&test_event(2, checkpoint("next", &["done", "built"], outcomes, visits, None), None))
        .unwrap();

    // An existing entry is left as it was.
    let kept = state.stage(&done).unwrap();
    assert_eq!(kept.first_event_seq, 1);
    assert!(kept.completion.is_none());
    // A skipped node gets an entry at the visit the checkpoint lists for it.
    assert!(state.stage(&StageId::new("later", 1)).is_none());
    let later = state.stage(&StageId::new("later", 3)).unwrap();
    assert_eq!(later.first_event_seq, 2);
    assert_eq!(later.completion.as_ref().unwrap().notes.as_deref(), Some("not needed"));
    assert_eq!(later.completion.as_ref().unwrap().timestamp, 1_700_000_000_002);
    // A node that was not skipped gets none.
    assert!(state.stage(&StageId::new("built", 1)).is_none());

    let current = state.checkpoint.as_ref().unwrap();
    assert_eq!(current.current_node, "next");
    assert_eq!(current.completed_nodes, vec!["done".to_string(), "built".to_string()]);
    assert_eq!(current.timestamp, 1_700_000_000_002);
    assert_eq!(state.checkpoints.len(), 1);
    assert_eq!(state.checkpoints[0].0, 2);

    state
        .apply_event(&test_event(3, checkpoint("last", &[], Vec::new(), Vec::new(), None), None))
        .unwrap();
    assert_eq!(state.checkpoint.as_ref().unwrap().current_node, "last");
    assert_eq!(state.checkpoints.len(), 2);
    assert_eq!(state.checkpoints[1].0, 3);
}

#[test]
fn checkpoint_visit_too_large_for_a_u32_falls_back_to_the_first_visit() {
    let mut state = RunProjection::new();
    let visits = vec![("skip".to_string(), u64::from(u32::MAX) + 1)];
    state
        .apply_event(&test_event(
            4,
            checkpoint("x", &[], vec![("skip".to_string(), skipped("no"))], visits, None),
            None,
        ))
        .unwrap();
    assert!(state.stage(&StageId::new("skip", 1)).is_some());
}

#[test]
fn run_end_concludes_the_run() {
    let mut state = RunProjection::new();
    state
        .apply_event(&test_event(
            7,
            EventBody::RunCompleted {
                reason: SuccessReason::Completed,
                status: CompletionStatus::Known(StageOutcome::PartialSuccess),
                duration_ms: 1_234,
                final_git_commit_sha: Some("cafe".to_string()),
                final_patch: None,
                diff_summary: None,
            },
            None,
        ))
        .unwrap();
    let conclusion = state.conclusion.clone().unwrap();
    assert_eq!(conclusion.status, StageOutcome::PartialSuccess);
    assert_eq!(conclusion.duration_ms, 1_234);
    assert_eq!(conclusion.timestamp, 1_700_000_000_007);
    assert_eq!(conclusion.failure_reason, None);
    assert_eq!(conclusion.final_git_commit_sha.as_deref(), Some("cafe"));

    let mut failed = RunProjection::new();
    failed
        .apply_event(&test_event(
            2,
            EventBody::RunFailed {
                reason: FailureReason::WorkflowError,
                error: "boom".to_string(),
                causes: Vec::new(),
                duration_ms: 9,
                git_commit_sha: Some("beef".to_string()),
                final_patch: None,
                diff_summary: None,
            },
            None,
        ))
        .unwrap();
    let conclusion = failed.conclusion.clone().unwrap();
    assert_eq!(conclusion.status, StageOutcome::Failed { retry_requested: false });
    assert_eq!(conclusion.failure_reason.as_deref(), Some("boom"));
    assert_eq!(conclusion.final_git_commit_sha.as_deref(), Some("beef"));
}

#[test]
fn render_with_causes_lists_each_cause_on_its_own_line() {
    assert_eq!(render_with_causes("top", &Vec::new()), "top");
    assert_eq!(
        render_with_causes("top", &vec!["a".to_string(), "b".to_string()]),
        "top\n  caused by: a\n  caused by: b"
    );
}

#[test]
fn sandbox_retro_and_pull_request_events_fill_their_records() {
    let mut state = RunProjection::new();
    state
        .apply_event(&test_event(
            1,
            EventBody::SandboxInitialized {
                provider: "docker".to_string(),
                working_directory: "/workspace".to_string(),
                identifier: Some("container-abc123".to_string()),
                repo_cloned: Some(true),
                clone_origin_url: Some("https://github.com/fabro-sh/fabro.git".to_string()),
                clone_branch: Some("main".to_string()),
            },
            None,
        ))
        .unwrap();
    let sandbox = state.sandbox.clone().unwrap();
    assert_eq!(sandbox.provider, "docker");
    assert_eq!(sandbox.working_directory, "/workspace");
    assert_eq!(sandbox.repo_cloned, Some(true));

    state
        .apply_event(&test_event(2, EventBody::RetroStarted { prompt: Some("How did it go?".to_string()) }, None))
        .unwrap();
    state
        .apply_event(&test_event(3, EventBody::RetroCompleted { response: Some("Fine.".to_string()), retro_error: None }, None))
        .unwrap();
    assert_eq!(state.retro_prompt.as_deref(), Some("How did it go?"));
    assert_eq!(state.retro_response.as_deref(), Some("Fine."));

    state
        .apply_event(&test_event(
            4,
            EventBody::PullRequestCreated {
                pr_url: "https://github.com/acme/widgets/pull/7".to_string(),
                pr_number: 7,
                owner: "acme".to_string(),
                repo: "widgets".to_string(),
                base_branch: "main".to_string(),
                head_branch: "fabro/run".to_string(),
                title: "Ship it".to_string(),
            },
            None,
        ))
        .unwrap();
    let pr = state.pull_request.clone().unwrap();
    assert_eq!(pr.number, 7);
    assert_eq!(pr.html_url, "https://github.com/acme/widgets/pull/7");
    assert_eq!(pr.head_branch, "fabro/run");
    assert_eq!(state.last_event_at, Some(1_700_000_000_004));
}

#[test]
fn unreadable_payloads_are_refused_after_the_status_change() {
    let mut state = RunProjection::new();
    state.apply_event(&test_event(1, EventBody::RunRunning, None)).unwrap();
    state.apply_event(&test_event(2, EventBody::RunCancelRequested, None)).unwrap();
    let err = state
        .apply_event(&test_event(
            3,
            EventBody::RunCompleted {
                reason: SuccessReason::Completed,
                status: CompletionStatus::Unreadable("Matching variant not found".to_string()),
                duration_ms: 5,
                final_git_commit_sha: None,
                final_patch: Some("patch".to_string()),
                diff_summary: None,
            },
            None,
        ))
        .unwrap_err();
    assert_eq!(
        err,
        ReduceError::InvalidEvent("invalid completed stage status: Matching variant not found".to_string())
    );
    // The status change and the cleared control request were made first.
    assert_eq!(state.status(), Some(RunStatus::Succeeded { reason: SuccessReason::Completed }));
    assert_eq!(state.pending_control, None);
    assert!(state.conclusion.is_none());
    assert_eq!(state.final_patch, None);

    let err = state
        .apply_event(&test_event(
            4,
            EventBody::RetroCompleted {
                response: Some("Done.".to_string()),
                retro_error: Some("missing field `learnings`".to_string()),
            },
            None,
        ))
        .unwrap_err();
    assert_eq!(
        err,
        ReduceError::InvalidEvent("invalid retro payload: missing field `learnings`".to_string())
    );
    assert_eq!(state.retro_response.as_deref(), Some("Done."));
    assert_eq!(state.last_event_at, Some(1_700_000_000_004));
}

fn start_stage(state: &mut RunProjection, stage_id: &StageId) {
    state
        .apply_event(&test_stage_event(3, EventBody::StageStarted, stage_id.clone()))
        .unwrap();
}

#[test]
fn agent_cli_completed_updates_stage_output_projection() {
    let mut state = RunProjection::new();
    let stage_id = StageId::new("code", 1);
    start_stage(&mut state, &stage_id);

    state
        .apply_event(&test_stage_event(
            4,
            EventBody::AgentCliEnded {
                stdout: "done".to_string(),
                stderr: "warn".to_string(),
                termination: CommandTermination::Exited,
            },
            stage_id.clone(),
        ))
        .unwrap();

    let stage = state.stage(&stage_id).unwrap();
    assert_eq!(stage.stdout.as_deref(), Some("done"));
    assert_eq!(stage.stderr.as_deref(), Some("warn"));
    assert_eq!(stage.termination, Some(CommandTermination::Exited));
}

#[test]
fn agent_cli_cancelled_updates_stage_output_projection() {
    let mut state = RunProjection::new();
    let stage_id = StageId::new("code", 1);
    start_stage(&mut state, &stage_id);

    state
        .apply_event(&test_stage_event(
            4,
            EventBody::AgentCliEnded {
                stdout: "partial".to_string(),
                stderr: "cancelled".to_string(),
                termination: CommandTermination::Cancelled,
            },
            stage_id.clone(),
        ))
        .unwrap();

    let stage = state.stage(&stage_id).unwrap();
    assert_eq!(stage.stdout.as_deref(), Some("partial"));
    assert_eq!(stage.stderr.as_deref(), Some("cancelled"));
    assert_eq!(stage.termination, Some(CommandTermination::Cancelled));
}

#[test]
fn agent_cli_timed_out_updates_stage_output_projection() {
    let mut state = RunProjection::new();
    let stage_id = StageId::new("code", 1);
    start_stage(&mut state, &stage_id);

    state
        .apply_event(&test_stage_event(
            4,
            EventBody::AgentCliEnded {
                stdout: "partial".to_string(),
                stderr: "timeout".to_string(),
                termination: CommandTermination::TimedOut,
            },
            stage_id.clone(),
        ))
        .unwrap();

    let stage = state.stage(&stage_id).unwrap();
    assert_eq!(stage.stdout.as_deref(), Some("partial"));
    assert_eq!(stage.stderr.as_deref(), Some("timeout"));
    assert_eq!(stage.termination, Some(CommandTermination::TimedOut));
}

use fabro::ids::{RunId, StageId};
use fabro::interview::InterviewOption;
use fabro::live_run::LiveRunState;
use fabro::projection::{
    BilledModelUsage, CommandTermination, DiffSummary, RunProjection, StageOutcome, StageProjection, StageState,
};
use fabro::projection_cache::{CacheError, CachedRunProjection, ListRunsQuery, RunProjectionCacheState};
use fabro::reducer::{CompletionStatus, EventBody, ReduceError, RunEvent};
use fabro::status::{
    BlockedReason, FailureReason, InvalidTransition, RunControlAction, RunStatus, SuccessReason,
};

fn run_1() -> RunId {
    RunId::from_u128(1)
}

fn test_event(seq: u32, body: EventBody, node_id: Option<&str>) -> RunEvent {
    RunEvent {
        seq,
        ts: 1_000 + i64::from(seq),
        run_id: run_1(),
        node_id: node_id.map(ToOwned::to_owned),
        stage_id: None,
        session_id: None,
        body,
    }
}

fn test_stage_event(seq: u32, body: EventBody, stage_id: StageId) -> RunEvent {
    let mut event = test_event(seq, body, Some(stage_id.node_id()));
    event.stage_id = Some(stage_id);
    event
}

fn completed(duration_ms: u64, status: StageOutcome, response: Option<&str>, node_visit: Option<u64>) -> EventBody {
    EventBody::StageCompleted {
        status,
        notes: None,
        failure_message: None,
        duration_ms,
        billing: None,
        response: response.map(ToOwned::to_owned),
        node_visit,
    }
}

fn test_usage(model_id: &str, input_tokens: i64, output_tokens: i64) -> BilledModelUsage {
    BilledModelUsage {
        provider: "openai".to_string(),
        model_id: model_id.to_string(),
        input_tokens,
        output_tokens,
        total_usd_micros: Some(input_tokens + output_tokens),
    }
}

fn billed(body: EventBody, usage: &BilledModelUsage) -> EventBody {
    match body {
        EventBody::StageCompleted { status, notes, failure_message, duration_ms, response, node_visit, .. } => {
            EventBody::StageCompleted {
                status,
                notes,
                failure_message,
                duration_ms,
                billing: Some(usage.clone()),
                response,
                node_visit,
            }
        },
        other => other,
    }
}

fn run_completed(reason: SuccessReason) -> EventBody {
    EventBody::RunCompleted {
        reason,
        status: CompletionStatus::Known(StageOutcome::Succeeded),
        duration_ms: 10,
        final_git_commit_sha: None,
        final_patch: None,
        diff_summary: None,
    }
}

fn run_failed(reason: FailureReason, error: &str) -> EventBody {
    EventBody::RunFailed {
        reason,
        error: error.to_string(),
        causes: Vec::new(),
        duration_ms: 42,
        git_commit_sha: None,
        final_patch: None,
        diff_summary: None,
    }
}

#[test]
fn iter_stages_yields_chronological_order_across_nodes() {
    let mut p = RunProjection::new();
    p.stage_entry("c", 1, 30);
    p.stage_entry("a", 1, 10);
    p.stage_entry("b", 1, 20);

    let order: Vec<String> = p
        .iter_stages()
        .iter()
        .map(|(stage_id, _)| stage_id.node_id().to_string())
        .collect();
    assert_eq!(order, vec!["a", "b", "c"]);
}

#[test]
fn iter_stages_orders_visits_within_a_node() {
    let mut p = RunProjection::new();
    p.stage_entry("verify", 2, 50);
    p.stage_entry("verify", 1, 20);

    let visits: Vec<u32> = p
        .iter_stages()
        .iter()
        .map(|(stage_id, _)| stage_id.visit())
        .collect();
    assert_eq!(visits, vec![1, 2]);
}

#[test]
fn iter_stages_mut_yields_chronological_order() {
    let mut p = RunProjection::new();
    p.stage_entry("c", 1, 30);
    p.stage_entry("a", 1, 10);
    p.stage_entry("b", 1, 20);

    let order: Vec<String> = p
        .iter_stages()
        .into_iter()
        .map(|(stage_id, _)| stage_id.node_id().to_string())
        .collect();
    assert_eq!(order, vec!["a", "b", "c"]);
}

#[test]
fn iter_stages_tie_breaks_same_first_event_seq_by_stage_id() {
    for _ in 0..128 {
        let mut p = RunProjection::new();
        p.stage_entry("verify", 2, 10);
        p.stage_entry("build", 1, 10);
        p.stage_entry("verify", 1, 10);

        let order: Vec<String> = p
            .iter_stages()
            .iter()
            .map(|(stage_id, _)| stage_id.to_string())
            .collect();
        assert_eq!(order, vec!["build@1", "verify@1", "verify@2"]);
    }
}

#[test]
fn iter_stages_mut_tie_breaks_same_first_event_seq_by_stage_id() {
    for _ in 0..128 {
        let mut p = RunProjection::new();
        p.stage_entry("verify", 2, 10);
        p.stage_entry("build", 1, 10);
        p.stage_entry("verify", 1, 10);

        let order: Vec<String> = p
            .iter_stages()
            .into_iter()
            .map(|(stage_id, _)| stage_id.to_string())
            .collect();
        assert_eq!(order, vec!["build@1", "verify@1", "verify@2"]);
    }
}

#[test]
fn stage_entry_keeps_an_existing_entry() {
    let mut p = RunProjection::new();
    let i = p.stage_entry("build", 1, 5);
    let j = p.stage_entry("build", 1, 9);
    assert_eq!(i, j);
    assert_eq!(p.stage(&StageId::new("build", 1)).unwrap().first_event_seq, 5);
    assert_eq!(p.current_visit_for("build"), Some(1));
    p.stage_entry("build", 3, 12);
    assert_eq!(p.current_visit_for("build"), Some(3));
    assert_eq!(p.list_node_visits("build"), vec![1, 3]);
    assert_eq!(p.current_visit_for("deploy"), None);
}

#[test]
fn stage_started_sets_first_event_seq() {
    let mut state = RunProjection::new();
    let stage_id = StageId::new("build", 1);

    state
        .apply_event(&test_stage_event(3, EventBody::StageStarted, stage_id.clone()))
        .unwrap();

    let stage = state.stage(&stage_id).unwrap();
    assert_eq!(stage.first_event_seq, 3);
    assert_eq!(stage.state, Some(StageState::Running));
    assert_eq!(stage.started_at, Some(1_003));
}

#[test]
fn later_stage_events_do_not_overwrite_first_event_seq() {
    let mut state = RunProjection::new();
    let stage_id = StageId::new("build", 1);

    state
        .apply_event(&test_stage_event(3, EventBody::StageStarted, stage_id.clone()))
        .unwrap();
    state
        .apply_event(&test_event(
            4,
            EventBody::StagePrompt {
                visit: 1,
                text: "prompt".to_string(),
                mode: None,
                provider: None,
                model: None,
            },
            Some("build"),
        ))
        .unwrap();

    let stage = state.stage(&stage_id).unwrap();
    assert_eq!(stage.first_event_seq, 3);
    assert_eq!(stage.prompt.as_deref(), Some("prompt"));
    assert!(stage.provider_used.is_none());
}

fn start_stage(state: &mut RunProjection, stage_id: &StageId) {
    state
        .apply_event(&test_stage_event(3, EventBody::StageStarted, stage_id.clone()))
        .unwrap();
}

#[test]
fn agent_session_activated_updates_stage_provider_used() {
    let mut state = RunProjection::new();
    let stage_id = StageId::new("code", 1);
    start_stage(&mut state, &stage_id);

    state
        .apply_event(&test_stage_event(
            4,
            EventBody::AgentSessionActivated {
                visit: 1,
                provider: Some("openai".to_string()),
                model: Some("gpt-5.4".to_string()),
                steerable: true,
            },
            stage_id.clone(),
        ))
        .unwrap();

    let used = state.stage(&stage_id).unwrap().provider_used.clone().unwrap();
    assert_eq!(used.mode.as_deref(), Some("agent"));
    assert_eq!(used.provider.as_deref(), Some("openai"));
    assert_eq!(used.model.as_deref(), Some("gpt-5.4"));
    assert_eq!(used.command, None);
}

#[test]
fn object_lifecycle_session_events_do_not_update_stage_provider_used() {
    let mut state = RunProjection::new();
    let stage_id = StageId::new("code", 1);
    start_stage(&mut state, &stage_id);

    state.apply_event(&test_event(4, EventBody::Other, None)).unwrap();
    state
        .apply_event(&test_event(5, EventBody::AgentSessionDeactivated, None))
        .unwrap();

    let stage = state.stage(&stage_id).unwrap();
    assert!(stage.provider_used.is_none());
    assert_eq!(state.last_event_at, Some(1_005));
}

#[test]
fn agent_cli_started_and_ended_update_stage_output_projection() {
    let mut state = RunProjection::new();
    let stage_id = StageId::new("code", 1);
    start_stage(&mut state, &stage_id);
    state
        .apply_event(&test_stage_event(
            4,
            EventBody::AgentCliStarted {
                visit: 1,
                provider: "acme".to_string(),
                model: "m-1".to_string(),
                command: "agent-cli -p".to_string(),
            },
            stage_id.clone(),
        ))
        .unwrap();
    state
        .apply_event(&test_event(
            5,
            EventBody::AgentCliEnded {
                stdout: "partial".to_string(),
                stderr: "warn".to_string(),
                termination: CommandTermination::Cancelled,
            },
            Some("code"),
        ))
        .unwrap();
    let stage = state.stage(&stage_id).unwrap();
    let used = stage.provider_used.clone().unwrap();
    assert_eq!(used.mode.as_deref(), Some("cli"));
    assert_eq!(used.command.as_deref(), Some("agent-cli -p"));
    assert_eq!(stage.stdout.as_deref(), Some("partial"));
    assert_eq!(stage.stderr.as_deref(), Some("warn"));
    assert_eq!(stage.termination, Some(CommandTermination::Cancelled));
}

#[test]
fn command_completed_records_streams() {
    let mut state = RunProjection::new();
    let stage_id = StageId::new("script", 1);
    start_stage(&mut state, &stage_id);
    state
        .apply_event(&test_stage_event(
            4,
            EventBody::CommandCompleted {
                stdout: "out".to_string(),
                stderr: String::new(),
                stdout_bytes: 3,
                stderr_bytes: 0,
                streams_separated: true,
                live_streaming: false,
                termination: CommandTermination::TimedOut,
            },
            stage_id.clone(),
        ))
        .unwrap();
    let stage = state.stage(&stage_id).unwrap();
    assert_eq!(stage.stdout_bytes, Some(3));
    assert_eq!(stage.streams_separated, Some(true));
    assert_eq!(stage.live_streaming, Some(false));
    assert_eq!(stage.termination, Some(CommandTermination::TimedOut));
}

#[test]
fn stage_completed_event_captures_duration_and_usage_per_visit() {
    let mut state = RunProjection::new();
    let usage = test_usage("gpt-5.2", 123, 45);
    state
        .apply_event(&test_event(
            3,
            billed(completed(789, StageOutcome::Succeeded, Some("done"), None), &usage),
            Some("build"),
        ))
        .unwrap();

    let stage = state.stage(&StageId::new("build", 1)).unwrap();
    assert_eq!(stage.duration_ms, Some(789));
    assert_eq!(stage.usage.as_ref(), Some(&usage));
    assert_eq!(stage.response.as_deref(), Some("done"));
    assert_eq!(stage.state, Some(StageState::Succeeded));
    assert_eq!(stage.completion.as_ref().unwrap().outcome, StageOutcome::Succeeded);
}

#[test]
fn two_visits_of_one_node_retain_distinct_usage() {
    let mut state = RunProjection::new();
    let first_usage = test_usage("gpt-5.2", 100, 10);
    let second_usage = test_usage("gpt-5.2", 200, 20);
    for (seq, visit, duration_ms, usage) in [
        (3, 1u64, 111, first_usage.clone()),
        (4, 2u64, 222, second_usage.clone()),
    ] {
        state
            .apply_event(&test_event(
                seq,
                billed(completed(duration_ms, StageOutcome::Succeeded, None, Some(visit)), &usage),
                Some("build"),
            ))
            .unwrap();
    }

    let first_stage = state.stage(&StageId::new("build", 1)).unwrap();
    let second_stage = state.stage(&StageId::new("build", 2)).unwrap();
    assert_eq!(first_stage.duration_ms, Some(111));
    assert_eq!(first_stage.usage.as_ref(), Some(&first_usage));
    assert_eq!(second_stage.duration_ms, Some(222));
    assert_eq!(second_stage.usage.as_ref(), Some(&second_usage));
}

#[test]
fn stage_completed_prefers_stored_stage_id_over_legacy_node_visits() {
    let mut state = RunProjection::new();
    let usage = test_usage("gpt-5.2", 300, 30);
    let scoped_stage_id = StageId::new("build", 2);

    state
        .apply_event(&test_stage_event(
            3,
            billed(completed(333, StageOutcome::Succeeded, Some("done"), Some(1)), &usage),
            scoped_stage_id.clone(),
        ))
        .unwrap();

    assert!(
        state.stage(&StageId::new("build", 1)).is_none(),
        "legacy node_visits must not override stored stage_id"
    );
    let stage = state.stage(&scoped_stage_id).unwrap();
    assert_eq!(stage.duration_ms, Some(333));
    assert_eq!(stage.usage.as_ref(), Some(&usage));
    assert_eq!(stage.response.as_deref(), Some("done"));
}

#[test]
fn stage_failed_prefers_stored_stage_id_and_preserves_retry_request() {
    let mut state = RunProjection::new();
    let usage = test_usage("gpt-5.2", 400, 40);
    let scoped_stage_id = StageId::new("build", 2);

    state
        .apply_event(&test_stage_event(
            3,
            EventBody::StageFailed {
                will_retry: true,
                failure_message: Some("try again".to_string()),
                duration_ms: 444,
                billing: Some(usage.clone()),
            },
            scoped_stage_id.clone(),
        ))
        .unwrap();

    assert!(
        state.stage(&StageId::new("build", 1)).is_none(),
        "current-visit fallback must not override stored stage_id"
    );
    let stage = state.stage(&scoped_stage_id).unwrap();
    assert_eq!(stage.duration_ms, Some(444));
    assert_eq!(stage.usage.as_ref(), Some(&usage));
    let completion = stage.completion.as_ref().unwrap();
    assert_eq!(completion.outcome, StageOutcome::Failed {
        retry_requested: true,
    });
    assert_eq!(completion.failure_reason.as_deref(), Some("try again"));
    assert_eq!(stage.state, Some(StageState::Failed));
}

#[test]
fn stage_retrying_sets_retrying_state_and_restart_resets_attempt() {
    let mut state = RunProjection::new();
    let stage_id = StageId::new("build", 1);
    start_stage(&mut state, &stage_id);
    state
        .apply_event(&test_stage_event(
            4,
            EventBody::StageFailed { will_retry: true, failure_message: None, duration_ms: 10, billing: None },
            stage_id.clone(),
        ))
        .unwrap();
    state
        .apply_event(&test_stage_event(5, EventBody::StageRetrying, stage_id.clone()))
        .unwrap();
    assert_eq!(state.stage(&stage_id).unwrap().state, Some(StageState::Retrying));
    state
        .apply_event(&test_stage_event(6, EventBody::StageStarted, stage_id.clone()))
        .unwrap();
    let stage = state.stage(&stage_id).unwrap();
    assert_eq!(stage.state, Some(StageState::Running));
    assert_eq!(stage.duration_ms, None);
    assert!(stage.completion.is_none());
    assert_eq!(stage.first_event_seq, 3);
    assert_eq!(stage.started_at, Some(1_006));
}

#[test]
fn checkpoint_diff_lands_on_the_named_visit() {
    let mut state = RunProjection::new();
    state
        .apply_event(&test_event(
            5,
            EventBody::CheckpointCompleted {
                current_node: "build".to_string(),
                completed_nodes: Vec::new(),
                next_node_id: None,
                git_commit_sha: None,
                node_outcomes: Vec::new(),
                node_visits: vec![("build".to_string(), 2)],
                diff: Some("diff --git a b".to_string()),
                diff_summary: Some(DiffSummary { files_changed: 1, additions: 2, deletions: 0 }),
            },
            Some("build"),
        ))
        .unwrap();
    let stage = state.stage(&StageId::new("build", 2)).unwrap();
    assert_eq!(stage.diff.as_deref(), Some("diff --git a b"));
    assert_eq!(stage.first_event_seq, 5);
    assert_eq!(state.diff_summary, Some(DiffSummary { files_changed: 1, additions: 2, deletions: 0 }));
}

fn interview_started(id: &str) -> EventBody {
    EventBody::InterviewStarted {
        question_id: id.to_string(),
        question: "Proceed?".to_string(),
        stage: "gate".to_string(),
        question_type: "multiple_choice".to_string(),
        options: vec![
            InterviewOption { key: "y".to_string(), label: "Yes".to_string() },
            InterviewOption { key: "n".to_string(), label: "No".to_string() },
        ],
        allow_freeform: false,
        timeout_seconds: Some(60),
        context_display: None,
    }
}

#[test]
fn interview_events_populate_and_clear_pending_interviews() {
    let mut state = RunProjection::new();
    state.apply_event(&test_event(1, interview_started("q1"), None)).unwrap();
    state.apply_event(&test_event(2, interview_started("q2"), None)).unwrap();
    assert_eq!(state.pending_interviews().len(), 2);
    assert_eq!(state.pending_interviews()[0].started_at, Some(1_001));
    assert_eq!(state.pending_interviews()[0].options.len(), 2);
    assert_eq!(state.pending_interviews()[1].timeout_seconds, Some(60));
    state
        .apply_event(&test_event(3, EventBody::InterviewCompleted { question_id: "q1".to_string() }, None))
        .unwrap();
    let ids: Vec<&str> = state.pending_interviews().iter().map(|q| q.question_id.as_str()).collect();
    assert_eq!(ids, vec!["q2"]);
    state
        .apply_event(&test_event(4, EventBody::InterviewTimeout { question_id: "q2".to_string() }, None))
        .unwrap();
    assert!(state.pending_interviews().is_empty());
}

#[test]
fn pending_interviews_are_listed_by_question_id() {
    let mut state = RunProjection::new();
    state.apply_event(&test_event(1, interview_started("q3"), None)).unwrap();
    state.apply_event(&test_event(2, interview_started("q1"), None)).unwrap();
    state.apply_event(&test_event(3, interview_started("q2"), None)).unwrap();
    state.apply_event(&test_event(4, interview_started("q1"), None)).unwrap();
    let ids: Vec<&str> = state.pending_interviews().iter().map(|q| q.question_id.as_str()).collect();
    assert_eq!(ids, vec!["q1", "q2", "q3"]);
    assert_eq!(state.pending_interviews()[0].started_at, Some(1_004));
    state
        .apply_event(&test_event(5, EventBody::InterviewInterrupted { question_id: "q2".to_string() }, None))
        .unwrap();
    let ids: Vec<&str> = state.pending_interviews().iter().map(|q| q.question_id.as_str()).collect();
    assert_eq!(ids, vec!["q1", "q3"]);
}

#[test]
fn queued_and_blocked_events_drive_projection_status() {
    let mut state = RunProjection::new();
    state.apply_event(&test_event(1, EventBody::RunSubmitted, None)).unwrap();
    state.apply_event(&test_event(2, EventBody::RunQueued, None)).unwrap();
    assert_eq!(state.status(), Some(RunStatus::Queued));
    assert_eq!(state.status_updated_at, Some(1_002));
    state.apply_event(&test_event(3, EventBody::RunStarting, None)).unwrap();
    state.apply_event(&test_event(4, EventBody::RunRunning, None)).unwrap();
    state
        .apply_event(&test_event(
            5,
            EventBody::RunBlocked { blocked_reason: BlockedReason::HumanInputRequired },
            None,
        ))
        .unwrap();
    assert_eq!(
        state.status(),
        Some(RunStatus::Blocked { blocked_reason: BlockedReason::HumanInputRequired })
    );
    state.apply_event(&test_event(6, EventBody::RunUnblocked, None)).unwrap();
    assert_eq!(state.status(), Some(RunStatus::Running));
}

#[test]
fn paused_over_blocked_round_trips_back_to_blocked() {
    let mut state = RunProjection::new();
    for (seq, body) in [
        (1, EventBody::RunSubmitted),
        (2, EventBody::RunStarting),
        (3, EventBody::RunRunning),
        (4, EventBody::RunBlocked { blocked_reason: BlockedReason::HumanInputRequired }),
        (5, EventBody::RunPauseRequested),
        (6, EventBody::RunPaused),
    ] {
        state.apply_event(&test_event(seq, body, None)).unwrap();
    }
    assert_eq!(
        state.status(),
        Some(RunStatus::Paused { prior_block: Some(BlockedReason::HumanInputRequired) })
    );
    state.apply_event(&test_event(7, EventBody::RunUnpaused, None)).unwrap();
    assert_eq!(
        state.status(),
        Some(RunStatus::Blocked { blocked_reason: BlockedReason::HumanInputRequired })
    );
}

#[test]
fn run_unblocked_while_paused_clears_blocked_reason_without_unpausing() {
    let mut state = RunProjection::new();
    for (seq, body) in [
        (1, EventBody::RunSubmitted),
        (2, EventBody::RunStarting),
        (3, EventBody::RunRunning),
        (4, EventBody::RunBlocked { blocked_reason: BlockedReason::HumanInputRequired }),
        (5, EventBody::RunPaused),
        (6, EventBody::RunUnblocked),
    ] {
        state.apply_event(&test_event(seq, body, None)).unwrap();
    }
    assert_eq!(state.status(), Some(RunStatus::Paused { prior_block: None }));
    state.apply_event(&test_event(7, EventBody::RunUnpaused, None)).unwrap();
    assert_eq!(state.status(), Some(RunStatus::Running));
}

#[test]
fn duplicate_status_event_noops_without_bumping_status_updated_at() {
    let mut state = RunProjection::new();
    state.apply_event(&test_event(1, EventBody::RunSubmitted, None)).unwrap();
    state.apply_event(&test_event(2, EventBody::RunSubmitted, None)).unwrap();
    assert_eq!(state.status_updated_at, Some(1_001));
    assert_eq!(state.last_event_at, Some(1_002));
}

#[test]
fn refused_transition_reports_the_pair_and_only_moves_the_clock() {
    let mut state = RunProjection::new();
    state.apply_event(&test_event(1, EventBody::RunSubmitted, None)).unwrap();
    state.apply_event(&test_event(2, EventBody::RunStarting, None)).unwrap();
    state.apply_event(&test_event(3, EventBody::RunRunning, None)).unwrap();
    state
        .apply_event(&test_event(
            4,
            run_completed(SuccessReason::Completed),
            None,
        ))
        .unwrap();
    assert!(state.is_terminal());
    let err = state.apply_event(&test_event(5, EventBody::RunRunning, None)).unwrap_err();
    assert_eq!(err, ReduceError::InvalidTransition(InvalidTransition {
        from: RunStatus::Succeeded { reason: SuccessReason::Completed },
        to: RunStatus::Running,
    }));
    assert_eq!(state.status(), Some(RunStatus::Succeeded { reason: SuccessReason::Completed }));
    assert_eq!(state.last_event_at, Some(1_005));
    assert_eq!(state.status_updated_at, Some(1_004));
}

#[test]
fn run_end_records_patch_and_clears_control_and_interviews() {
    let mut state = RunProjection::new();
    state.apply_event(&test_event(1, EventBody::RunSubmitted, None)).unwrap();
    state.apply_event(&test_event(2, EventBody::RunStarting, None)).unwrap();
    state.apply_event(&test_event(3, interview_started("q"), None)).unwrap();
    state.apply_event(&test_event(4, EventBody::RunCancelRequested, None)).unwrap();
    assert_eq!(state.pending_control, Some(RunControlAction::Cancel));
    let summary = DiffSummary { files_changed: 2, additions: 5, deletions: 1 };
    state
        .apply_event(&test_event(
            5,
            EventBody::RunFailed {
                reason: FailureReason::Cancelled,
                error: "cancelled".to_string(),
                causes: Vec::new(),
                duration_ms: 42,
                git_commit_sha: None,
                final_patch: Some("patch".to_string()),
                diff_summary: Some(summary),
            },
            None,
        ))
        .unwrap();
    assert_eq!(state.pending_control, None);
    assert!(state.pending_interviews().is_empty());
    assert_eq!(state.final_patch.as_deref(), Some("patch"));
    assert_eq!(state.diff_summary, Some(summary));
    assert_eq!(state.status(), Some(RunStatus::Failed { reason: FailureReason::Cancelled }));
}

#[test]
fn superseded_run_and_start_are_recorded() {
    let mut state = RunProjection::new();
    state
        .apply_event(&test_event(
            1,
            EventBody::RunStarted { run_branch: Some("fabro/run".to_string()), base_sha: None },
            None,
        ))
        .unwrap();
    let start = state.start.clone().unwrap();
    assert_eq!(start.start_time, 1_001);
    assert_eq!(start.run_branch.as_deref(), Some("fabro/run"));
    state
        .apply_event(&test_event(2, EventBody::RunSupersededBy { new_run_id: RunId::from_u128(9) }, None))
        .unwrap();
    assert_eq!(state.superseded_by, Some(RunId::from_u128(9)));
    state
        .apply_event(&test_event(3, EventBody::RunCreated { workflow_source: Some("digraph {}".to_string()) }, None))
        .unwrap();
    assert_eq!(state.graph_source.as_deref(), Some("digraph {}"));
}

#[test]
fn apply_events_matches_applying_each_event_in_turn() {
    let mut started = test_event(4, EventBody::StageStarted, Some("build"));
    started.stage_id = Some(StageId::new("build", 1));
    let events = vec![
        test_event(1, EventBody::RunSubmitted, None),
        test_event(2, EventBody::RunStarting, None),
        test_event(3, EventBody::RunRunning, None),
        started,
        test_event(5, interview_started("q2"), None),
        test_event(6, interview_started("q1"), None),
        test_event(7, EventBody::InterviewCompleted { question_id: "q2".to_string() }, None),
    ];
    let folded = RunProjection::apply_events(&events).unwrap();
    let mut stepwise = RunProjection::new();
    for e in &events {
        stepwise.apply_event(e).unwrap();
    }
    assert_eq!(format!("{folded:?}"), format!("{stepwise:?}"));
    assert_eq!(folded.pending_interviews().len(), 1);
    assert_eq!(folded.pending_interviews()[0].question_id, "q1");
    assert!(folded.stage(&StageId::new("build", 1)).is_some());
}

#[test]
fn apply_events_replays_a_stream_and_stops_at_the_first_refusal() {
    let ok = vec![
        test_event(1, EventBody::RunSubmitted, None),
        test_event(2, EventBody::RunStarting, None),
        test_event(3, EventBody::RunRunning, None),
    ];
    let p = RunProjection::apply_events(&ok).unwrap();
    assert_eq!(p.status(), Some(RunStatus::Running));
    assert_eq!(p.last_event_at, Some(1_003));
    let bad = vec![
        test_event(1, EventBody::RunSubmitted, None),
        test_event(2, EventBody::RunStarting, None),
        test_event(3, EventBody::RunSubmitted, None),
        test_event(4, run_completed(SuccessReason::Completed), None),
    ];
    assert_eq!(
        RunProjection::apply_events(&bad).unwrap_err(),
        ReduceError::InvalidTransition(InvalidTransition {
            from: RunStatus::Submitted,
            to: RunStatus::Succeeded { reason: SuccessReason::Completed },
        })
    );
}

#[test]
fn stage_runtime_uses_start_time_while_running() {
    let mut stage = StageProjection::new(4);
    assert_eq!(stage.effective_state(), StageState::Running);
    assert_eq!(stage.runtime_ms(10), None);
    stage.begin_attempt(100);
    assert_eq!(stage.runtime_ms(250), Some(150));
    assert_eq!(stage.runtime_ms(50), Some(0));
    stage.state = Some(StageState::Succeeded);
    stage.duration_ms = Some(42);
    assert_eq!(stage.runtime_ms(1_000), Some(42));
    assert_eq!(stage.first_event_seq, 4);
}

fn cached(id: u128, parent: Option<u128>, seq: u32) -> CachedRunProjection {
    let mut projection = RunProjection::new();
    projection.apply_event(&test_event(1, EventBody::RunSubmitted, None)).unwrap();
    CachedRunProjection {
        run_id: RunId::from_u128(id),
        parent_id: parent.map(RunId::from_u128),
        projection,
        last_seq: seq,
    }
}

fn ts_id(ms: u128, low: u128) -> u128 {
    (ms << 80) | low
}

#[test]
fn cache_lists_newest_first_and_filters_by_parent_and_time() {
    let mut cache = RunProjectionCacheState::new();
    cache.insert(cached(ts_id(10, 1), None, 1));
    cache.insert(cached(ts_id(30, 1), Some(ts_id(10, 1)), 1));
    cache.insert(cached(ts_id(20, 1), Some(ts_id(10, 1)), 1));
    cache.insert(cached(ts_id(20, 2), None, 1));

    let all = cache.list(&ListRunsQuery::default());
    let ids: Vec<u128> = all.iter().map(|e| e.run_id.as_u128()).collect();
    assert_eq!(ids, vec![ts_id(30, 1), ts_id(20, 2), ts_id(20, 1), ts_id(10, 1)]);

    let children = cache.list(&ListRunsQuery { start: None, end: None, parent_id: Some(RunId::from_u128(ts_id(10, 1))) });
    let ids: Vec<u128> = children.iter().map(|e| e.run_id.as_u128()).collect();
    assert_eq!(ids, vec![ts_id(30, 1), ts_id(20, 1)]);

    let window = cache.list(&ListRunsQuery { start: Some(15), end: Some(25), parent_id: None });
    let ids: Vec<u128> = window.iter().map(|e| e.run_id.as_u128()).collect();
    assert_eq!(ids, vec![ts_id(20, 2), ts_id(20, 1)]);

    cache.remove(&RunId::from_u128(ts_id(30, 1)));
    let children = cache.list(&ListRunsQuery { start: None, end: None, parent_id: Some(RunId::from_u128(ts_id(10, 1))) });
    assert_eq!(children.len(), 1);
    assert!(cache.get(&RunId::from_u128(ts_id(30, 1))).is_none());
}

#[test]
fn cache_reparents_on_insert_and_replace_all_keeps_the_last_entry() {
    let mut cache = RunProjectionCacheState::new();
    cache.insert(cached(5, Some(1), 1));
    cache.insert(cached(5, Some(2), 3));
    let under_1 = cache.list(&ListRunsQuery { start: None, end: None, parent_id: Some(RunId::from_u128(1)) });
    assert!(under_1.is_empty());
    let under_2 = cache.list(&ListRunsQuery { start: None, end: None, parent_id: Some(RunId::from_u128(2)) });
    assert_eq!(under_2.len(), 1);
    assert_eq!(cache.get(&RunId::from_u128(5)).unwrap().last_seq, 3);

    cache.replace_all(vec![cached(7, None, 1), cached(7, None, 4), cached(8, None, 2)]);
    assert_eq!(cache.get(&RunId::from_u128(7)).unwrap().last_seq, 4);
    assert!(cache.get(&RunId::from_u128(5)).is_none());
    assert_eq!(cache.list(&ListRunsQuery::default()).len(), 2);
}

#[test]
fn cache_applies_events_in_sequence() {
    let run = RunId::from_u128(42);
    let mut cache = RunProjectionCacheState::new();
    assert_eq!(
        cache.apply_event(&run, None, &test_event(2, EventBody::RunQueued, None)),
        Err(CacheError::CannotInitialize { event_seq: 2 })
    );
    assert!(cache.get(&run).is_none());
    cache.apply_event(&run, Some(RunId::from_u128(1)), &test_event(1, EventBody::RunSubmitted, None)).unwrap();
    assert_eq!(cache.get(&run).unwrap().last_seq, 1);
    assert_eq!(cache.get(&run).unwrap().parent_id, Some(RunId::from_u128(1)));
    assert_eq!(
        cache.apply_event(&run, None, &test_event(3, EventBody::RunQueued, None)),
        Err(CacheError::SequenceGap { last_seq: 1, event_seq: 3 })
    );
    cache.apply_event(&run, None, &test_event(2, EventBody::RunQueued, None)).unwrap();
    assert_eq!(cache.get(&run).unwrap().projection.status(), Some(RunStatus::Queued));
    cache.apply_event(&run, None, &test_event(1, EventBody::RunSubmitted, None)).unwrap();
    assert_eq!(cache.get(&run).unwrap().last_seq, 2);
    assert_eq!(cache.get(&run).unwrap().projection.status(), Some(RunStatus::Queued));
    cache.apply_event(&run, None, &test_event(3, EventBody::RunStarting, None)).unwrap();
    cache.apply_event(&run, None, &test_event(4, EventBody::RunRunning, None)).unwrap();
    cache
        .apply_event(
            &run,
            None,
            &test_event(5, run_completed(SuccessReason::Completed), None),
        )
        .unwrap();
    assert_eq!(
        cache.apply_event(&run, None, &test_event(6, EventBody::RunRunning, None)),
        Err(CacheError::Refused(ReduceError::InvalidTransition(InvalidTransition {
            from: RunStatus::Succeeded { reason: SuccessReason::Completed },
            to: RunStatus::Running,
        })))
    );
    assert_eq!(cache.get(&run).unwrap().last_seq, 5);
}

fn session_event(seq: u32, body: EventBody, stage: &StageId, session: &str) -> RunEvent {
    let mut e = test_stage_event(seq, body, stage.clone());
    e.session_id = Some(session.to_string());
    e
}

#[test]
fn live_run_tracks_status_error_and_agent_sessions() {
    let stage = StageId::new("code", 1);
    let mut live = LiveRunState::new(RunStatus::Running);
    live.apply_event(&session_event(
        1,
        EventBody::AgentSessionActivated { visit: 1, provider: None, model: None, steerable: true },
        &stage,
        "s1",
    ));
    assert_eq!(live.active_api_stages, vec![(stage.clone(), "s1".to_string())]);
    live.apply_event(&session_event(2, EventBody::AgentSessionDeactivated, &stage, "stale"));
    assert_eq!(live.active_api_stages.len(), 1);
    live.apply_event(&session_event(3, EventBody::AgentSessionDeactivated, &stage, "s1"));
    assert!(live.active_api_stages.is_empty());

    live.apply_event(&test_stage_event(
        4,
        EventBody::AgentCliStarted { visit: 1, provider: "p".to_string(), model: "m".to_string(), command: "c".to_string() },
        stage.clone(),
    ));
    assert_eq!(live.active_non_steerable_agent_stages, vec![stage.clone()]);
    live.apply_event(&test_stage_event(
        5,
        EventBody::AgentCliEnded { stdout: String::new(), stderr: String::new(), termination: CommandTermination::Cancelled },
        stage.clone(),
    ));
    assert_eq!(live.active_non_steerable_agent_stages.len(), 1);
    live.apply_event(&test_stage_event(
        6,
        EventBody::AgentCliEnded { stdout: String::new(), stderr: String::new(), termination: CommandTermination::Exited },
        stage.clone(),
    ));
    assert!(live.active_non_steerable_agent_stages.is_empty());

    live.apply_event(&test_event(
        7,
        run_failed(FailureReason::WorkflowError, "boom"),
        None,
    ));
    assert_eq!(live.status, RunStatus::Failed { reason: FailureReason::WorkflowError });
    assert_eq!(live.error.as_deref(), Some("boom"));
}

#[test]
fn live_run_forgets_sessions_when_the_run_ends() {
    let stage = StageId::new("code", 2);
    let mut live = LiveRunState::new(RunStatus::Running);
    live.apply_event(&session_event(
        1,
        EventBody::AgentSessionActivated { visit: 2, provider: None, model: None, steerable: true },
        &stage,
        "s",
    ));
    live.apply_event(&test_stage_event(2, EventBody::AgentAcpStarted, StageId::new("other", 1)));
    live.apply_event(&test_event(
        3,
        run_completed(SuccessReason::Completed),
        None,
    ));
    assert!(live.active_api_stages.is_empty());
    assert!(live.active_non_steerable_agent_stages.is_empty());
    assert_eq!(live.error, None);
    assert_eq!(live.status, RunStatus::Succeeded { reason: SuccessReason::Completed });
}

//! Folding a run's event stream into its projection.

use vstd::prelude::*;
use crate::ids::{RunId, StageId, seq_lt, str_lt};
use crate::projection::{
    is_fresh,
    CommandTermination, DiffSummary, InterviewView, PendingInterviewRecord, interview_views, ProviderUsed, RunProjection,
    StageCompletion, StageOutcome, StageProjection, StageState, StartRecord, clone_opt_string, clone_options,
    fresh_stage, stage_in, stage_index, lemma_stage_index, status_change_ok,
    lemma_seq_lt_irreflexive, lemma_seq_lt_total, lemma_seq_lt_transitive,
    BilledModelUsage, Checkpoint, CheckpointView, clone_opt_usage, Conclusion, NodeOutcome, PullRequestRecord, SandboxRecord, checkpoint_view,
    checkpoints_view, clone_node_outcomes, clone_node_visits, clone_strings, same_records,
};
use crate::text::{push_str, string_from_range};
use crate::status::{
    BlockedReason, FailureReason, InvalidTransition, RunControlAction, RunStatus, SuccessReason,
};
use crate::text::str_eq;
use crate::interview::InterviewOption;
use crate::replay::{law_stream_fold_is_stepwise, same_content};

verus! {

/// The payload of a run event: what the projection reads of each kind.
#[derive(Debug, Clone)]
pub enum EventBody {
    RunCreated { workflow_source: Option<String> },
    RunStarted { run_branch: Option<String>, base_sha: Option<String> },
    RunSubmitted,
    RunQueued,
    RunStarting,
    RunRunning,
    RunBlocked { blocked_reason: BlockedReason },
    RunUnblocked,
    RunRemoving,
    RunCancelRequested,
    RunPauseRequested,
    RunUnpauseRequested,
    RunPaused,
    RunUnpaused,
    RunCompleted {
        reason: SuccessReason,
        status: CompletionStatus,
        duration_ms: u64,
        final_git_commit_sha: Option<String>,
        final_patch: Option<String>,
        diff_summary: Option<DiffSummary>,
    },
    RunFailed {
        reason: FailureReason,
        error: String,
        causes: Vec<String>,
        duration_ms: u64,
        git_commit_sha: Option<String>,
        final_patch: Option<String>,
        diff_summary: Option<DiffSummary>,
    },
    RunSupersededBy { new_run_id: RunId },
    CheckpointCompleted {
        current_node: String,
        completed_nodes: Vec<String>,
        next_node_id: Option<String>,
        git_commit_sha: Option<String>,
        node_outcomes: Vec<(String, NodeOutcome)>,
        node_visits: Vec<(String, u64)>,
        diff: Option<String>,
        diff_summary: Option<DiffSummary>,
    },
    SandboxInitialized {
        provider: String,
        working_directory: String,
        identifier: Option<String>,
        repo_cloned: Option<bool>,
        clone_origin_url: Option<String>,
        clone_branch: Option<String>,
    },
    RetroStarted { prompt: Option<String> },
    RetroCompleted { response: Option<String>, retro_error: Option<String> },
    PullRequestCreated {
        pr_url: String,
        pr_number: u64,
        owner: String,
        repo: String,
        base_branch: String,
        head_branch: String,
        title: String,
    },
    InterviewStarted {
        question_id: String,
        question: String,
        stage: String,
        question_type: String,
        options: Vec<InterviewOption>,
        allow_freeform: bool,
        timeout_seconds: Option<u64>,
        context_display: Option<String>,
    },
    InterviewCompleted { question_id: String },
    InterviewTimeout { question_id: String },
    InterviewInterrupted { question_id: String },
    StageStarted,
    StageRetrying,
    StagePrompt {
        visit: u32,
        text: String,
        mode: Option<String>,
        provider: Option<String>,
        model: Option<String>,
    },
    PromptCompleted { response: String },
    StageCompleted {
        status: StageOutcome,
        notes: Option<String>,
        failure_message: Option<String>,
        duration_ms: u64,
        billing: Option<BilledModelUsage>,
        response: Option<String>,
        node_visit: Option<u64>,
    },
    StageFailed {
        will_retry: bool,
        failure_message: Option<String>,
        duration_ms: u64,
        billing: Option<BilledModelUsage>,
    },
    AgentSessionActivated { visit: u32, provider: Option<String>, model: Option<String>, steerable: bool },
    AgentSessionDeactivated,
    AgentAcpStarted,
    AgentAcpEnded,
    AgentCliStarted { visit: u32, provider: String, model: String, command: String },
    CommandCompleted {
        stdout: String,
        stderr: String,
        stdout_bytes: u64,
        stderr_bytes: u64,
        streams_separated: bool,
        live_streaming: bool,
        termination: CommandTermination,
    },
    AgentCliEnded { stdout: String, stderr: String, termination: CommandTermination },
    Other,
}

/// The stage outcome a run-completed event reports: one that reads, or the
/// reader's message for a status text that names no outcome.
#[derive(Debug, Clone, PartialEq, Eq)]
pub enum CompletionStatus {
    Known(StageOutcome),
    Unreadable(String),
}

/// A stored run event: its sequence number in the run's stream, its time in
/// Unix milliseconds, the node, stage and agent session it concerns, and its
/// payload.
#[derive(Debug, Clone)]
pub struct RunEvent {
    pub seq: u32,
    pub ts: i64,
    pub run_id: RunId,
    pub node_id: Option<String>,
    pub stage_id: Option<StageId>,
    pub session_id: Option<String>,
    pub body: EventBody,
}

/// Why the projection refused an event: a status change the transition
/// table refuses, or a payload that does not read.
#[derive(Debug, Clone, PartialEq, Eq)]
pub enum ReduceError {
    InvalidTransition(InvalidTransition),
    InvalidEvent(String),
}

/// The error an event's own payload gives, found once its status change is
/// made: a completion status that is not a stage outcome, or a
/// retrospective that does not read (each with the reader's message).
pub open spec fn payload_error(body: EventBody) -> Option<Seq<char>> {
    match body {
        EventBody::RunCompleted { status: CompletionStatus::Unreadable(d), .. } => Some("invalid completed stage status: "@ + d@),
        EventBody::RetroCompleted { retro_error: Some(d), .. } => Some("invalid retro payload: "@ + d@),
        _ => None,
    }
}

/// The event is taken whole: its status change is accepted and its payload
/// reads.
pub open spec fn event_ok(current: Option<RunStatus>, body: EventBody) -> bool {
    event_accepted(current, body) && payload_error(body) is None
}

/// `err` is the error the projection gives for the event, at that status.
pub open spec fn error_is(err: ReduceError, current: Option<RunStatus>, body: EventBody) -> bool {
    match err {
        ReduceError::InvalidTransition(t) => !event_accepted(current, body) && t == (InvalidTransition {
            from: current.unwrap(),
            to: status_target(current, body).unwrap(),
        }),
        ReduceError::InvalidEvent(m) => event_accepted(current, body) && payload_error(body) == Some(m@),
    }
}

/// What an event with a payload that does not read leaves behind: the
/// part of it done before the payload is read (a completion's status change
/// and cleared control request; a retrospective's response), and the time
/// of the last event.
pub open spec fn applied_before_payload_error(old: RunProjection, e: RunEvent, new: RunProjection) -> bool {
    &&& new.last_event_at == Some(e.ts)
    &&& match e.body {
        EventBody::RunCompleted { .. } => {
            &&& new.status == status_target(old.status, e.body)
            &&& new.status_updated_at == if old.status == new.status {
                old.status_updated_at
            } else {
                Some(e.ts)
            }
            &&& new.pending_control is None
            &&& same_but_last_event(
                old,
                RunProjection {
                    status: old.status,
                    status_updated_at: old.status_updated_at,
                    pending_control: old.pending_control,
                    ..new
                },
            )
        },
        EventBody::RetroCompleted { response, .. } => {
            &&& new.retro_response == response
            &&& same_but_last_event(old, RunProjection { retro_response: old.retro_response, ..new })
        },
        _ => false,
    }
}

/// The status that an event asks the run to move to, given its current
/// status (`None` for events that leave the status alone).
pub open spec fn status_target(current: Option<RunStatus>, body: EventBody) -> Option<RunStatus> {
    match body {
        EventBody::RunSubmitted => Some(RunStatus::Submitted),
        EventBody::RunQueued => Some(RunStatus::Queued),
        EventBody::RunStarting => Some(RunStatus::Starting),
        EventBody::RunRunning => Some(RunStatus::Running),
        EventBody::RunBlocked { blocked_reason } => Some(
            if current matches Some(RunStatus::Paused { .. }) {
                RunStatus::Paused { prior_block: Some(blocked_reason) }
            } else {
                RunStatus::Blocked { blocked_reason }
            },
        ),
        EventBody::RunUnblocked => Some(
            if current matches Some(RunStatus::Paused { .. }) {
                RunStatus::Paused { prior_block: None }
            } else {
                RunStatus::Running
            },
        ),
        EventBody::RunRemoving => Some(RunStatus::Removing),
        EventBody::RunPaused => Some(
            RunStatus::Paused {
                prior_block: match current {
                    Some(s) => s.blocked_reason_of(),
                    None => None,
                },
            },
        ),
        EventBody::RunUnpaused => Some(
            match current {
                Some(RunStatus::Paused { prior_block: Some(r) }) => RunStatus::Blocked {
                    blocked_reason: r,
                },
                _ => RunStatus::Running,
            },
        ),
        EventBody::RunCompleted { reason, .. } => Some(RunStatus::Succeeded { reason }),
        EventBody::RunFailed { reason, .. } => Some(RunStatus::Failed { reason }),
        _ => None,
    }
}

/// Whether the event is accepted by the projection: it either leaves the
/// status alone or asks for a status change that the projection accepts.
pub open spec fn event_accepted(current: Option<RunStatus>, body: EventBody) -> bool {
    match status_target(current, body) {
        Some(t) => status_change_ok(current, t),
        None => true,
    }
}

/// The highest visit of a node among the stage entries, or 1 when it has
/// none.
pub open spec fn current_visit_or_one(stages: Seq<(StageId, StageProjection)>, node: Seq<char>) -> u32 {
    if exists|v: u32| stage_in(stages, node, v) is Some {
        choose|m: u32| stage_in(stages, node, m) is Some && forall|v: u32|
            #[trigger] stage_in(stages, node, v) is Some ==> v <= m
    } else {
        1
    }
}

/// The stage entry an event acts on, if any: its stored stage id where the
/// event kind honours one, otherwise the node with the visit the event names
/// (none when that is 0) or the node's current visit.
pub open spec fn stage_target(stages: Seq<(StageId, StageProjection)>, e: RunEvent) -> Option<(Seq<char>, u32)> {
    let stored = match e.stage_id {
        Some(id) => Some((id.node_id@, id.visit)),
        None => None,
    };
    let current = match e.node_id {
        Some(n) => Some((n@, current_visit_or_one(stages, n@))),
        None => None,
    };
    match e.body {
        EventBody::StageStarted => stored,
        EventBody::StageRetrying | EventBody::PromptCompleted { .. } | EventBody::StageFailed {
            ..
        } | EventBody::CommandCompleted { .. } => if stored is Some {
            stored
        } else {
            current
        },
        EventBody::StagePrompt { visit, .. } | EventBody::AgentSessionActivated { visit, .. }
        | EventBody::AgentCliStarted { visit, .. } => if stored is Some {
            stored
        } else if visit == 0 {
            None
        } else {
            match e.node_id {
                Some(n) => Some((n@, visit)),
                None => None,
            }
        },
        EventBody::StageCompleted { node_visit, .. } => if stored is Some {
            stored
        } else {
            match e.node_id {
                Some(n) => Some(
                    (
                        n@,
                        match node_visit {
                            Some(v) if 0 < v && v <= u32::MAX => v as u32,
                            _ => current_visit_or_one(stages, n@),
                        },
                    ),
                ),
                None => None,
            }
        },
        EventBody::AgentCliEnded { .. } => current,
        EventBody::CheckpointCompleted { diff, node_visits, .. } => if diff is Some {
            match e.node_id {
                Some(n) => Some((n@, checkpoint_visit(node_visits@, n@))),
                None => None,
            }
        } else {
            None
        },
        _ => None,
    }
}

/// The visit count a checkpoint lists for a node (the first one it lists).
pub open spec fn visit_lookup(visits: Seq<(String, u64)>, node: Seq<char>) -> Option<u64>
    decreases visits.len(),
{
    if visits.len() == 0 {
        None
    } else {
        match visit_lookup(visits.drop_last(), node) {
            Some(v) => Some(v),
            None => if visits.last().0@ == node {
                Some(visits.last().1)
            } else {
                None
            },
        }
    }
}

/// The visit of a node that a checkpoint speaks of: its listed count when
/// that fits a `u32`, otherwise 1.
pub open spec fn checkpoint_visit(visits: Seq<(String, u64)>, node: Seq<char>) -> u32 {
    match visit_lookup(visits, node) {
        Some(v) => if v <= u32::MAX {
            v as u32
        } else {
            1
        },
        None => 1,
    }
}

/// The first outcome a checkpoint lists for a node, among those that
/// report the node as skipped.
pub open spec fn first_skipped(outcomes: Seq<(String, NodeOutcome)>, node: Seq<char>) -> Option<NodeOutcome>
    decreases outcomes.len(),
{
    if outcomes.len() == 0 {
        None
    } else {
        match first_skipped(outcomes.drop_last(), node) {
            Some(o) => Some(o),
            None => if outcomes.last().0@ == node && outcomes.last().1.status == StageOutcome::Skipped {
                Some(outcomes.last().1)
            } else {
                None
            },
        }
    }
}

/// The entry a checkpoint records for a skipped node: a fresh stage first
/// seen at this event, completed with the node's outcome at the event's
/// time.
pub open spec fn skipped_stage(o: NodeOutcome, seq: u32, ts: i64) -> StageProjection {
    StageProjection {
        completion: Some(
            StageCompletion {
                outcome: o.status,
                notes: o.notes,
                failure_reason: o.failure_message,
                timestamp: ts,
            },
        ),
        ..fresh_stage(seq)
    }
}

/// The skipped stage a checkpoint reports at `(node, visit)`, if any.
pub open spec fn skipped_at(
    outcomes: Seq<(String, NodeOutcome)>,
    visits: Seq<(String, u64)>,
    seq: u32,
    ts: i64,
    node: Seq<char>,
    visit: u32,
) -> Option<StageProjection> {
    if visit == checkpoint_visit(visits, node) {
        match first_skipped(outcomes, node) {
            Some(o) => Some(skipped_stage(o, seq, ts)),
            None => None,
        }
    } else {
        None
    }
}

/// What an event adds at `(node, visit)` where the projection had no
/// stage entry: for a checkpoint, the skipped stage it reports there.
pub open spec fn skipped_entry(e: RunEvent, node: Seq<char>, visit: u32) -> Option<StageProjection> {
    match e.body {
        EventBody::CheckpointCompleted { node_outcomes, node_visits, .. } => skipped_at(
            node_outcomes@,
            node_visits@,
            e.seq,
            e.ts,
            node,
            visit,
        ),
        _ => None,
    }
}

/// The stage entry at `(node, visit)` after an event that does not act on
/// it: the old one, or what the event adds there.
pub open spec fn stage_kept(p: RunProjection, e: RunEvent, node: Seq<char>, visit: u32) -> Option<StageProjection> {
    if p.stage_of(node, visit) is Some {
        p.stage_of(node, visit)
    } else {
        skipped_entry(e, node, visit)
    }
}

/// An error followed by its causes, one per line, each under a two-space
/// indent and introduced by "caused by: ".
pub open spec fn with_causes(error: Seq<char>, causes: Seq<String>) -> Seq<char>
    decreases causes.len(),
{
    if causes.len() == 0 {
        error
    } else {
        with_causes(error, causes.drop_last()) + "\n  caused by: "@ + causes.last()@
    }
}

/// Renders an error with its causes.
pub fn render_with_causes(error: &str, causes: &Vec<String>) -> (r: String)
    ensures
        r@ == with_causes(error@, causes@),
{
    let mut out: Vec<char> = Vec::new();
    push_str(&mut out, error);
    let mut i: usize = 0;
    while i < causes.len()
        invariant
            i <= causes@.len(),
            out@ == with_causes(error@, causes@.take(i as int)),
        decreases causes.len() - i,
    {
        proof {
            reveal_strlit("\n  caused by: ");
            assert(causes@.take(i + 1).drop_last() =~= causes@.take(i as int));
        }
        push_str(&mut out, "\n  caused by: ");
        push_str(&mut out, causes[i].as_str());
        i = i + 1;
    }
    assert(causes@.take(causes@.len() as int) =~= causes@);
    string_from_range(&out, 0, out.len())
}

/// The provider a prompt event names: an object of whichever of mode,
/// provider and model it carries, or nothing when it carries none.
pub open spec fn provider_from_prompt(
    mode: Option<String>,
    provider: Option<String>,
    model: Option<String>,
) -> Option<ProviderUsed> {
    if mode is None && provider is None && model is None {
        None
    } else {
        Some(ProviderUsed { mode, provider, model, command: None })
    }
}

/// What an event does to the stage entry it acts on: `new` is `st` after
/// the event.
pub open spec fn stage_updated(st: StageProjection, e: RunEvent, new: StageProjection) -> bool {
    match e.body {
        EventBody::StageStarted => new == StageProjection {
            started_at: Some(e.ts),
            state: Some(StageState::Running),
            ..fresh_stage(st.first_event_seq)
        },
        EventBody::StageRetrying => new == StageProjection {
            state: Some(StageState::Retrying),
            ..st
        },
        EventBody::StagePrompt { text, mode, provider, model, .. } => new == StageProjection {
            prompt: Some(text),
            provider_used: provider_from_prompt(mode, provider, model),
            ..st
        },
        EventBody::PromptCompleted { response } => new == StageProjection {
            response: Some(response),
            ..st
        },
        EventBody::StageCompleted { status, notes, failure_message, duration_ms, billing, response, .. } =>
            new == StageProjection {
            response,
            completion: Some(
                StageCompletion {
                    outcome: status,
                    notes,
                    failure_reason: failure_message,
                    timestamp: e.ts,
                },
            ),
            duration_ms: Some(duration_ms),
            usage: billing,
            state: Some(StageState::of_outcome(status)),
            ..st
        },
        EventBody::StageFailed { will_retry, failure_message, duration_ms, billing } => new
            == StageProjection {
            completion: Some(
                StageCompletion {
                    outcome: StageOutcome::Failed { retry_requested: will_retry },
                    notes: None,
                    failure_reason: failure_message,
                    timestamp: e.ts,
                },
            ),
            duration_ms: Some(duration_ms),
            usage: billing,
            state: Some(StageState::Failed),
            ..st
        },
        EventBody::AgentSessionActivated { provider, model, .. } => {
            &&& new == StageProjection { provider_used: new.provider_used, ..st }
            &&& new.provider_used matches Some(pu) && pu.mode matches Some(m) && m@ == "agent"@
                && pu.provider == provider && pu.model == model && pu.command is None
        },
        EventBody::AgentCliStarted { provider, model, command, .. } => {
            &&& new == StageProjection { provider_used: new.provider_used, ..st }
            &&& new.provider_used matches Some(pu) && pu.mode matches Some(m) && m@ == "cli"@
                && pu.provider == Some(provider) && pu.model == Some(model) && pu.command == Some(
                command,
            )
        },
        EventBody::CommandCompleted {
            stdout,
            stderr,
            stdout_bytes,
            stderr_bytes,
            streams_separated,
            live_streaming,
            termination,
        } => new == StageProjection {
            stdout: Some(stdout),
            stderr: Some(stderr),
            stdout_bytes: Some(stdout_bytes),
            stderr_bytes: Some(stderr_bytes),
            streams_separated: Some(streams_separated),
            live_streaming: Some(live_streaming),
            termination: Some(termination),
            ..st
        },
        EventBody::AgentCliEnded { stdout, stderr, termination } => new == StageProjection {
            stdout: Some(stdout),
            stderr: Some(stderr),
            termination: Some(termination),
            ..st
        },
        EventBody::CheckpointCompleted { diff, .. } => new == StageProjection { diff, ..st },
        _ => new == st,
    }
}

/// The interview id an event settles (completion, timeout or interruption
/// of a question), when it names one.
pub open spec fn settled_interview(body: EventBody) -> Option<Seq<char>> {
    match body {
        EventBody::InterviewCompleted { question_id }
        | EventBody::InterviewTimeout { question_id }
        | EventBody::InterviewInterrupted { question_id } => if question_id@.len() > 0 {
            Some(question_id@)
        } else {
            None
        },
        _ => None,
    }
}

/// Index of the pending interview with this id, or -1.
pub open spec fn interview_index(list: Seq<PendingInterviewRecord>, id: Seq<char>) -> int
    decreases list.len(),
{
    if list.len() == 0 {
        -1
    } else if list.last().question_id@ == id {
        list.len() - 1
    } else {
        interview_index(list.drop_last(), id)
    }
}

/// Pending interviews have distinct ids.
pub open spec fn interviews_unique(list: Seq<PendingInterviewRecord>) -> bool {
    forall|i: int, j: int|
        0 <= i < list.len() && 0 <= j < list.len() && i != j ==> (#[trigger] list[i]).question_id@
            != (#[trigger] list[j]).question_id@
}

/// Pending interviews are kept in ascending order of question id.
pub open spec fn interviews_sorted(list: Seq<PendingInterviewRecord>) -> bool {
    forall|i: int, j: int|
        0 <= i < j < list.len() ==> seq_lt(
            (#[trigger] list[i]).question_id@,
            (#[trigger] list[j]).question_id@,
        )
}

/// Well-formedness of a projection that the reducer keeps.
pub open spec fn reducer_wf(p: RunProjection) -> bool {
    p.wf() && interviews_unique(p.pending_interviews@) && interviews_sorted(p.pending_interviews@)
}

/// Whether the event reaches the stage-entry logic, where a sequence
/// number of 0 is not a valid run event.
pub open spec fn touches_stages(body: EventBody) -> bool {
    match body {
        EventBody::StageStarted | EventBody::StageRetrying | EventBody::StagePrompt { .. }
        | EventBody::PromptCompleted { .. } | EventBody::StageCompleted { .. }
        | EventBody::StageFailed { .. } | EventBody::AgentSessionActivated { .. }
        | EventBody::AgentCliStarted { .. } | EventBody::CommandCompleted { .. }
        | EventBody::AgentCliEnded { .. } | EventBody::CheckpointCompleted { .. } => true,
        _ => false,
    }
}

/// The pending control request after an event.
pub open spec fn control_after(
    old: Option<RunControlAction>,
    body: EventBody,
) -> Option<RunControlAction> {
    match body {
        EventBody::RunCancelRequested => Some(RunControlAction::Cancel),
        EventBody::RunPauseRequested => Some(RunControlAction::Pause),
        EventBody::RunUnpauseRequested => Some(RunControlAction::Unpause),
        EventBody::RunPaused | EventBody::RunUnpaused | EventBody::RunCompleted { .. }
        | EventBody::RunFailed { .. } => None,
        _ => old,
    }
}

/// The final patch after an event.
pub open spec fn patch_after(old: Option<String>, body: EventBody) -> Option<String> {
    match body {
        EventBody::RunCompleted { final_patch, .. } | EventBody::RunFailed { final_patch, .. } =>
            final_patch,
        _ => old,
    }
}

/// The diff summary after an event: a reported summary replaces the old
/// one, a missing one never blanks it.
pub open spec fn diff_after(old: Option<DiffSummary>, body: EventBody) -> Option<DiffSummary> {
    match body {
        EventBody::RunCompleted { diff_summary, .. } | EventBody::RunFailed { diff_summary, .. }
        | EventBody::CheckpointCompleted { diff_summary, .. } => if diff_summary is Some {
            diff_summary
        } else {
            old
        },
        _ => old,
    }
}

/// The stage projection that an event starts from for `(node, visit)`: the
/// existing one, or a fresh one first seen at this event.
pub open spec fn stage_base(stages: Seq<(StageId, StageProjection)>, node: Seq<char>, visit: u32, seq: u32) -> StageProjection {
    match stage_in(stages, node, visit) {
        Some(st) => st,
        None => fresh_stage(seq),
    }
}

/// Everything but the time of the last event is as before.
pub open spec fn same_but_last_event(a: RunProjection, b: RunProjection) -> bool {
    &&& a.graph_source == b.graph_source
    &&& a.start == b.start
    &&& a.status == b.status
    &&& a.status_updated_at == b.status_updated_at
    &&& a.pending_control == b.pending_control
    &&& a.final_patch == b.final_patch
    &&& a.diff_summary == b.diff_summary
    &&& a.superseded_by == b.superseded_by
    &&& same_records(a, b)
    &&& interview_views(a.pending_interviews@) == interview_views(b.pending_interviews@)
    &&& a.stages@ == b.stages@
}

proof fn lemma_stage_index_update(
    s: Seq<(StageId, StageProjection)>,
    i: int,
    x: StageProjection,
    node: Seq<char>,
    visit: u32,
)
    requires
        0 <= i < s.len(),
    ensures
        stage_index(s.update(i, (s[i].0, x)), node, visit) == stage_index(s, node, visit),
    decreases s.len(),
{
    let t = s.update(i, (s[i].0, x));
    if s.len() > 0 {
        if i < s.len() - 1 {
            assert(t.drop_last() =~= s.drop_last().update(i, (s[i].0, x)));
            assert(t.last() == s.last());
            lemma_stage_index_update(s.drop_last(), i, x, node, visit);
        } else {
            assert(t.drop_last() =~= s.drop_last());
        }
    }
}

fn clone_opt_diff(d: &Option<DiffSummary>) -> (r: Option<DiffSummary>)
    ensures
        r == *d,
{
    *d
}

/// Moves the stage projection through an event.
fn apply_to_stage(st: &mut StageProjection, e: &RunEvent)
    ensures
        stage_updated(*old(st), *e, *final(st)),
{
    match &e.body {
        EventBody::StageStarted => {
            st.begin_attempt(e.ts);
        },
        EventBody::StageRetrying => {
            st.state = Some(StageState::Retrying);
        },
        EventBody::StagePrompt { text, mode, provider, model, .. } => {
            st.prompt = Some(text.clone());
            if mode.is_none() && provider.is_none() && model.is_none() {
                st.provider_used = None;
            } else {
                st.provider_used = Some(
                    ProviderUsed {
                        mode: clone_opt_string(mode),
                        provider: clone_opt_string(provider),
                        model: clone_opt_string(model),
                        command: None,
                    },
                );
            }
        },
        EventBody::PromptCompleted { response } => {
            st.response = Some(response.clone());
        },
        EventBody::StageCompleted { status, notes, failure_message, duration_ms, billing, response, .. } => {
            st.response = clone_opt_string(response);
            st.completion = Some(
                StageCompletion {
                    outcome: *status,
                    notes: clone_opt_string(notes),
                    failure_reason: clone_opt_string(failure_message),
                    timestamp: e.ts,
                },
            );
            st.duration_ms = Some(*duration_ms);
            st.usage = clone_opt_usage(billing);
            st.state = Some(StageState::from_outcome(*status));
        },
        EventBody::StageFailed { will_retry, failure_message, duration_ms, billing } => {
            st.completion = Some(
                StageCompletion {
                    outcome: StageOutcome::Failed { retry_requested: *will_retry },
                    notes: None,
                    failure_reason: clone_opt_string(failure_message),
                    timestamp: e.ts,
                },
            );
            st.duration_ms = Some(*duration_ms);
            st.usage = clone_opt_usage(billing);
            st.state = Some(StageState::Failed);
        },
        EventBody::AgentSessionActivated { provider, model, .. } => {
            st.provider_used = Some(
                ProviderUsed {
                    mode: Some("agent".to_string()),
                    provider: clone_opt_string(provider),
                    model: clone_opt_string(model),
                    command: None,
                },
            );
        },
        EventBody::AgentCliStarted { provider, model, command, .. } => {
            st.provider_used = Some(
                ProviderUsed {
                    mode: Some("cli".to_string()),
                    provider: Some(provider.clone()),
                    model: Some(model.clone()),
                    command: Some(command.clone()),
                },
            );
        },
        EventBody::CommandCompleted {
            stdout,
            stderr,
            stdout_bytes,
            stderr_bytes,
            streams_separated,
            live_streaming,
            termination,
        } => {
            st.stdout = Some(stdout.clone());
            st.stderr = Some(stderr.clone());
            st.stdout_bytes = Some(*stdout_bytes);
            st.stderr_bytes = Some(*stderr_bytes);
            st.streams_separated = Some(*streams_separated);
            st.live_streaming = Some(*live_streaming);
            st.termination = Some(*termination);
        },
        EventBody::AgentCliEnded { stdout, stderr, termination } => {
            st.stdout = Some(stdout.clone());
            st.stderr = Some(stderr.clone());
            st.termination = Some(*termination);
        },
        EventBody::CheckpointCompleted { diff, .. } => {
            st.diff = clone_opt_string(diff);
        },
        _ => {},
    }
}

impl RunProjection {
    /// The node's current visit, or 1 when it has none.
    fn current_visit_or_one_exec(&self, node_id: &str) -> (v: u32)
        ensures
            v == current_visit_or_one(self.stages@, node_id@),
    {
        match self.current_visit_for(node_id) {
            Some(m) => {
                proof {
                    assert forall|v: u32| #[trigger] stage_in(self.stages@, node_id@, v) is Some implies v <= m by {
                        assert(self.stage_of(node_id@, v) is Some);
                    }
                    assert(stage_in(self.stages@, node_id@, m) is Some);
                    let m2 = choose|m2: u32|
                        stage_in(self.stages@, node_id@, m2) is Some && forall|v: u32|
                            #[trigger] stage_in(self.stages@, node_id@, v) is Some ==> v <= m2;
                    assert(self.stage_of(node_id@, m) is Some);
                    assert(stage_in(self.stages@, node_id@, m) is Some);
                    assert(stage_in(self.stages@, node_id@, m2) is Some);
                    assert(self.stage_of(node_id@, m2) is Some);
                    assert(m <= m2);
                    assert(m2 <= m);
                }
                m
            },
            None => {
                proof {
                    assert forall|v: u32| !(#[trigger] stage_in(self.stages@, node_id@, v) is Some) by {
                        assert(self.stage_of(node_id@, v) is None);
                    }
                }
                1
            },
        }
    }

    /// The stage entry an event acts on.
    fn resolve_stage(&self, e: &RunEvent) -> (r: Option<(String, u32)>)
        ensures
            r matches Some(k) ==> stage_target(self.stages@, *e) == Some((k.0@, k.1)),
            r is None ==> stage_target(self.stages@, *e) is None,
    {
        let stored = match &e.stage_id {
            Some(id) => Some((id.node_id.clone(), id.visit)),
            None => None,
        };
        match &e.body {
            EventBody::StageStarted => stored,
            EventBody::StageRetrying | EventBody::PromptCompleted { .. } | EventBody::StageFailed {
                ..
            } | EventBody::CommandCompleted { .. } => {
                if stored.is_some() {
                    stored
                } else {
                    match &e.node_id {
                        Some(n) => Some((n.clone(), self.current_visit_or_one_exec(n.as_str()))),
                        None => None,
                    }
                }
            },
            EventBody::StagePrompt { visit, .. } | EventBody::AgentSessionActivated { visit, .. }
            | EventBody::AgentCliStarted { visit, .. } => {
                if stored.is_some() {
                    stored
                } else if *visit == 0 {
                    None
                } else {
                    match &e.node_id {
                        Some(n) => Some((n.clone(), *visit)),
                        None => None,
                    }
                }
            },
            EventBody::StageCompleted { node_visit, .. } => {
                if stored.is_some() {
                    stored
                } else {
                    match &e.node_id {
                        Some(n) => {
                            let v = match node_visit {
                                Some(v) => {
                                    if 0 < *v && *v <= 0xFFFF_FFFF {
                                        *v as u32
                                    } else {
                                        self.current_visit_or_one_exec(n.as_str())
                                    }
                                },
                                None => self.current_visit_or_one_exec(n.as_str()),
                            };
                            Some((n.clone(), v))
                        },
                        None => None,
                    }
                }
            },
            EventBody::AgentCliEnded { .. } => match &e.node_id {
                Some(n) => Some((n.clone(), self.current_visit_or_one_exec(n.as_str()))),
                None => None,
            },
            EventBody::CheckpointCompleted { diff, node_visits, .. } => {
                if diff.is_some() {
                    match &e.node_id {
                        Some(n) => Some((n.clone(), checkpoint_visit_of(node_visits, n.as_str()))),
                        None => None,
                    }
                } else {
                    None
                }
            },
            _ => None,
        }
    }

    /// Applies the event to the entry it acts on.
    fn apply_stage_event(&mut self, e: &RunEvent)
        requires
            reducer_wf(*old(self)),
            touches_stages(e.body) ==> e.seq != 0,
        ensures
            reducer_wf(*final(self)),
            final(self).status == old(self).status,
            final(self).status_updated_at == old(self).status_updated_at,
            final(self).last_event_at == old(self).last_event_at,
            final(self).pending_control == old(self).pending_control,
            final(self).pending_interviews == old(self).pending_interviews,
            final(self).final_patch == old(self).final_patch,
            final(self).diff_summary == old(self).diff_summary,
            final(self).superseded_by == old(self).superseded_by,
            final(self).start == old(self).start,
            final(self).graph_source == old(self).graph_source,
            same_records(*old(self), *final(self)),
            stage_target(old(self).stages@, *e) is None ==> final(self).stages == old(self).stages,
            stage_target(old(self).stages@, *e) matches Some(k) ==> (final(self).stage_of(k.0, k.1) matches Some(
                new,
            ) && stage_updated(stage_base(old(self).stages@, k.0, k.1, e.seq), *e, new)),
            stage_target(old(self).stages@, *e) matches Some(k) ==> forall|n: Seq<char>, v: u32|
                !(n == k.0 && v == k.1) ==> #[trigger] final(self).stage_of(n, v) == old(self).stage_of(n, v),
    {
        let target = self.resolve_stage(e);
        match target {
            None => {},
            Some((node, visit)) => {
                proof {
                    assert(touches_stages(e.body));
                }
                let ghost pre = *self;
                let i = self.stage_entry(node.as_str(), visit, e.seq);
                let ghost mid = self.stages@;
                proof {
                    lemma_stage_index(pre.stages@, node@, visit);
                    if pre.stage_of(node@, visit) is None {
                        assert(mid.drop_last() =~= pre.stages@);
                    } else {
                        assert(mid == pre.stages@);
                    }
                    assert(mid[i as int].1 == stage_base(pre.stages@, node@, visit, e.seq)) by {
                        if pre.stage_of(node@, visit) is None {
                            assert(mid[i as int] == mid.last());
                        }
                    }
                    assert forall|n: Seq<char>, v: u32|
                        !(n == node@ && v == visit) implies #[trigger] stage_index(mid, n, v)
                        == stage_index(pre.stages@, n, v) by {
                        if pre.stage_of(node@, visit) is None {
                            lemma_stage_index_push(pre.stages@, mid[i as int], n, v);
                        }
                    }
                }
                let entry = &mut self.stages[i];
                apply_to_stage(&mut entry.1, e);
                proof {
                    let fin = self.stages@;
                    assert(fin =~= mid.update(i as int, (mid[i as int].0, fin[i as int].1)));
                    assert forall|n: Seq<char>, v: u32|
                        !(n == node@ && v == visit) implies #[trigger] self.stage_of(n, v)
                        == pre.stage_of(n, v) by {
                        lemma_stage_index_update(mid, i as int, fin[i as int].1, n, v);
                        lemma_stage_index(mid, n, v);
                        if stage_index(mid, n, v) >= 0 {
                            assert(stage_index(mid, n, v) != i);
                            lemma_stage_index_prefix(pre.stages@, mid, n, v);
                        }
                    }
                    lemma_stage_index_update(mid, i as int, fin[i as int].1, node@, visit);
                    assert forall|a: int, b: int|
                        0 <= a < fin.len() && 0 <= b < fin.len() && a != b implies !(
                        #[trigger] fin[a].0.node_id@ == #[trigger] fin[b].0.node_id@ && fin[a].0.visit
                            == fin[b].0.visit) by {
                        assert(fin[a].0 == mid[a].0);
                        assert(fin[b].0 == mid[b].0);
                    }
                    assert forall|k: int| 0 <= k < fin.len() implies (#[trigger] fin[k]).1.first_event_seq != 0 by {
                        assert(mid[k].1.first_event_seq != 0);
                    }
                }
            },
        }
    }
}

/// The visit of a node that a checkpoint speaks of.
fn checkpoint_visit_of(visits: &Vec<(String, u64)>, node: &str) -> (v: u32)
    ensures
        v == checkpoint_visit(visits@, node@),
{
    let mut found: Option<u64> = None;
    let mut i: usize = 0;
    while i < visits.len()
        invariant
            i <= visits@.len(),
            found == visit_lookup(visits@.take(i as int), node@),
        decreases visits.len() - i,
    {
        proof {
            assert(visits@.take(i + 1).drop_last() =~= visits@.take(i as int));
        }
        if found.is_none() && str_eq(visits[i].0.as_str(), node) {
            found = Some(visits[i].1);
        }
        i = i + 1;
    }
    proof {
        assert(visits@.take(visits@.len() as int) =~= visits@);
    }
    match found {
        Some(v) => if v <= 0xFFFF_FFFF {
            v as u32
        } else {
            1
        },
        None => 1,
    }
}

impl RunProjection {
    /// Adds a stage entry at a `(node, visit)` that has none.
    fn put_new_stage(&mut self, node: &String, visit: u32, st: StageProjection)
        requires
            reducer_wf(*old(self)),
            old(self).stage_of(node@, visit) is None,
            st.first_event_seq != 0,
        ensures
            reducer_wf(*final(self)),
            final(self).stage_of(node@, visit) == Some(st),
            forall|n: Seq<char>, v: u32|
                !(n == node@ && v == visit) ==> #[trigger] final(self).stage_of(n, v) == old(self).stage_of(n, v),
            final(self).status == old(self).status,
            final(self).status_updated_at == old(self).status_updated_at,
            final(self).last_event_at == old(self).last_event_at,
            final(self).pending_control == old(self).pending_control,
            final(self).pending_interviews == old(self).pending_interviews,
            final(self).final_patch == old(self).final_patch,
            final(self).diff_summary == old(self).diff_summary,
            final(self).superseded_by == old(self).superseded_by,
            final(self).start == old(self).start,
            final(self).graph_source == old(self).graph_source,
            same_records(*old(self), *final(self)),
    {
        let ghost before = self.stages@;
        let entry = (StageId { node_id: node.clone(), visit }, st);
        self.stages.push(entry);
        proof {
            let after = self.stages@;
            lemma_stage_index(before, node@, visit);
            assert(after.drop_last() =~= before);
            assert forall|n: Seq<char>, v: u32|
                !(n == node@ && v == visit) implies #[trigger] self.stage_of(n, v) == old(self).stage_of(n, v) by {
                lemma_stage_index_push(before, entry, n, v);
                lemma_stage_index(before, n, v);
                if stage_index(before, n, v) >= 0 {
                    assert(after[stage_index(before, n, v)] == before[stage_index(before, n, v)]);
                }
            }
            assert forall|a: int, b: int|
                0 <= a < after.len() && 0 <= b < after.len() && a != b implies !(
                #[trigger] after[a].0.node_id@ == #[trigger] after[b].0.node_id@ && after[a].0.visit
                    == after[b].0.visit) by {
                if a < before.len() && b < before.len() {
                    assert(after[a] == before[a]);
                    assert(after[b] == before[b]);
                } else if a < before.len() {
                    assert(after[a] == before[a]);
                } else {
                    assert(after[b] == before[b]);
                }
            }
            assert forall|k: int| 0 <= k < after.len() implies (#[trigger] after[k]).1.first_event_seq != 0 by {
                if k < before.len() {
                    assert(after[k] == before[k]);
                }
            }
        }
    }

    /// Gives each node that a checkpoint reports as skipped a completed
    /// stage entry at the node's visit, unless one is there already.
    fn record_skipped_stages(
        &mut self,
        outcomes: &Vec<(String, NodeOutcome)>,
        visits: &Vec<(String, u64)>,
        seq: u32,
        ts: i64,
    )
        requires
            reducer_wf(*old(self)),
            seq != 0,
        ensures
            reducer_wf(*final(self)),
            forall|n: Seq<char>, v: u32| #[trigger] final(self).stage_of(n, v) == if old(self).stage_of(n, v) is Some {
                old(self).stage_of(n, v)
            } else {
                skipped_at(outcomes@, visits@, seq, ts, n, v)
            },
            final(self).status == old(self).status,
            final(self).status_updated_at == old(self).status_updated_at,
            final(self).last_event_at == old(self).last_event_at,
            final(self).pending_control == old(self).pending_control,
            final(self).pending_interviews == old(self).pending_interviews,
            final(self).final_patch == old(self).final_patch,
            final(self).diff_summary == old(self).diff_summary,
            final(self).superseded_by == old(self).superseded_by,
            final(self).start == old(self).start,
            final(self).graph_source == old(self).graph_source,
            same_records(*old(self), *final(self)),
    {
        let ghost pre = *self;
        let mut k: usize = 0;
        while k < outcomes.len()
            invariant
                k <= outcomes@.len(),
                seq != 0,
                reducer_wf(*self),
                forall|n: Seq<char>, v: u32| #[trigger] self.stage_of(n, v) == if pre.stage_of(n, v) is Some {
                    pre.stage_of(n, v)
                } else {
                    skipped_at(outcomes@.take(k as int), visits@, seq, ts, n, v)
                },
                self.status == pre.status,
                self.status_updated_at == pre.status_updated_at,
                self.last_event_at == pre.last_event_at,
                self.pending_control == pre.pending_control,
                self.pending_interviews == pre.pending_interviews,
                self.final_patch == pre.final_patch,
                self.diff_summary == pre.diff_summary,
                self.superseded_by == pre.superseded_by,
                self.start == pre.start,
                self.graph_source == pre.graph_source,
                same_records(pre, *self),
            decreases outcomes.len() - k,
        {
            let ghost cur = *self;
            let ghost taken = outcomes@.take(k as int);
            let ghost next = outcomes@.take(k + 1);
            proof {
                assert(next.drop_last() =~= taken);
                assert(next.last() == outcomes@[k as int]);
            }
            let node = &outcomes[k].0;
            let o = &outcomes[k].1;
            if o.status == StageOutcome::Skipped {
                let visit = checkpoint_visit_of(visits, node.as_str());
                let sid = StageId { node_id: node.clone(), visit };
                if self.stage(&sid).is_none() {
                    proof {
                        assert(first_skipped(taken, node@) is None);
                    }
                    let st = StageProjection {
                        first_event_seq: seq,
                        prompt: None,
                        response: None,
                        completion: Some(
                            StageCompletion {
                                outcome: o.status,
                                notes: clone_opt_string(&o.notes),
                                failure_reason: clone_opt_string(&o.failure_message),
                                timestamp: ts,
                            },
                        ),
                        provider_used: None,
                        diff: None,
                        stdout: None,
                        stderr: None,
                        stdout_bytes: None,
                        stderr_bytes: None,
                        streams_separated: None,
                        live_streaming: None,
                        termination: None,
                        started_at: None,
                        duration_ms: None,
                        usage: None,
                        state: None,
                    };
                    self.put_new_stage(node, visit, st);
                }
            }
            proof {
                assert forall|n: Seq<char>, v: u32| #[trigger] self.stage_of(n, v) == if pre.stage_of(n, v) is Some {
                    pre.stage_of(n, v)
                } else {
                    skipped_at(next, visits@, seq, ts, n, v)
                } by {
                    assert(cur.stage_of(n, v) == if pre.stage_of(n, v) is Some {
                        pre.stage_of(n, v)
                    } else {
                        skipped_at(taken, visits@, seq, ts, n, v)
                    });
                }
            }
            k = k + 1;
        }
        proof {
            assert(outcomes@.take(outcomes@.len() as int) =~= outcomes@);
        }
    }
}

proof fn lemma_stage_index_push(
    s: Seq<(StageId, StageProjection)>,
    x: (StageId, StageProjection),
    node: Seq<char>,
    visit: u32,
)
    requires
        !(x.0.node_id@ == node && x.0.visit == visit),
    ensures
        stage_index(s.push(x), node, visit) == stage_index(s, node, visit),
{
    assert(s.push(x).drop_last() =~= s);
}

/// Entries of `pre` keep their index in `mid` when `mid` extends `pre`.
proof fn lemma_stage_index_prefix(
    pre: Seq<(StageId, StageProjection)>,
    mid: Seq<(StageId, StageProjection)>,
    node: Seq<char>,
    visit: u32,
)
    requires
        mid == pre || (mid.len() == pre.len() + 1 && mid.drop_last() == pre),
        stage_index(mid, node, visit) == stage_index(pre, node, visit),
        stage_index(mid, node, visit) >= 0,
    ensures
        mid[stage_index(mid, node, visit)] == pre[stage_index(pre, node, visit)],
{
    lemma_stage_index(pre, node, visit);
    if mid != pre {
        assert(mid[stage_index(pre, node, visit)] == mid.drop_last()[stage_index(pre, node, visit)]);
    }
}

/// The pending interview with this id, if any, among interview contents.
pub open spec fn interview_in(views: Seq<InterviewView>, id: Seq<char>) -> Option<InterviewView> {
    if exists|i: int| 0 <= i < views.len() && (#[trigger] views[i]).question_id == id {
        Some(views[choose|i: int| 0 <= i < views.len() && (#[trigger] views[i]).question_id == id])
    } else {
        None
    }
}

/// The contents of the pending interview with this id, if any.
pub open spec fn interview_of(list: Seq<PendingInterviewRecord>, id: Seq<char>) -> Option<InterviewView> {
    interview_in(interview_views(list), id)
}

pub(crate) proof fn lemma_interview_of_at(list: Seq<PendingInterviewRecord>, k: int)
    requires
        interviews_unique(list),
        0 <= k < list.len(),
    ensures
        interview_of(list, list[k].question_id@) == Some(list[k]@),
{
    let id = list[k].question_id@;
    let views = interview_views(list);
    assert(views[k] == list[k]@);
    assert(views[k].question_id == id);
    let c = choose|i: int| 0 <= i < views.len() && (#[trigger] views[i]).question_id == id;
    assert(views[c] == list[c]@);
    if c != k {
        assert(list[c].question_id@ != list[k].question_id@);
    }
}

pub(crate) proof fn lemma_interview_of_none(list: Seq<PendingInterviewRecord>, id: Seq<char>)
    requires
        forall|i: int| 0 <= i < list.len() ==> (#[trigger] list[i]).question_id@ != id,
    ensures
        interview_of(list, id) is None,
{
    let views = interview_views(list);
    assert forall|i: int| 0 <= i < views.len() implies (#[trigger] views[i]).question_id != id by {
        assert(views[i] == list[i]@);
    }
}

/// The pending interviews after an event, kept in ascending order of
/// question id: settled questions leave, a started question enters
/// (replacing one with the same id), the end of the run clears them all.
pub open spec fn interviews_after(
    old: Seq<PendingInterviewRecord>,
    e: RunEvent,
    new: Seq<PendingInterviewRecord>,
) -> bool {
    &&& interviews_sorted(new)
    &&& match e.body {
        EventBody::RunCompleted { .. } | EventBody::RunFailed { .. } => new.len() == 0,
        EventBody::InterviewStarted {
            question_id,
            question,
            stage,
            question_type,
            options,
            allow_freeform,
            timeout_seconds,
            context_display,
        } =>
            if question_id@.len() > 0 {
            forall|id: Seq<char>|
                #[trigger] interview_of(new, id) == if id == question_id@ {
                    Some(
                        InterviewView {
                            question_id: question_id@,
                            text: question@,
                            stage: stage@,
                            question_type: question_type@,
                            options: options@,
                            allow_freeform,
                            timeout_seconds,
                            context_display,
                            started_at: Some(e.ts),
                        },
                    )
                } else {
                    interview_of(old, id)
                }
        } else {
            interview_views(new) == interview_views(old)
        },
        _ => match settled_interview(e.body) {
            Some(q) => forall|id: Seq<char>|
                #[trigger] interview_of(new, id) == if id == q {
                    None
                } else {
                    interview_of(old, id)
                },
            None => interview_views(new) == interview_views(old),
        },
    }
}

/// Interview lists with the same contents have the same ids in the same
/// order: both are free of repeated ids and ascending, or neither is.
pub proof fn lemma_unique_by_views(a: Seq<PendingInterviewRecord>, b: Seq<PendingInterviewRecord>)
    requires
        interview_views(a) == interview_views(b),
        interviews_unique(b),
        interviews_sorted(b),
    ensures
        interviews_unique(a),
        interviews_sorted(a),
{
    assert(a.len() == interview_views(a).len());
    assert forall|i: int, j: int| 0 <= i < j < a.len() implies seq_lt(
        (#[trigger] a[i]).question_id@,
        (#[trigger] a[j]).question_id@,
    ) by {
        assert(interview_views(a)[i] == a[i]@);
        assert(interview_views(b)[i] == b[i]@);
        assert(interview_views(a)[j] == a[j]@);
        assert(interview_views(b)[j] == b[j]@);
    }
    assert forall|i: int, j: int| 0 <= i < a.len() && 0 <= j < a.len() && i != j implies (
    #[trigger] a[i]).question_id@ != (#[trigger] a[j]).question_id@ by {
        assert(interview_views(a)[i] == a[i]@);
        assert(interview_views(b)[i] == b[i]@);
        assert(interview_views(a)[j] == a[j]@);
        assert(interview_views(b)[j] == b[j]@);
    }
}

/// Ascending ids are distinct ids.
pub(crate) proof fn lemma_sorted_unique(list: Seq<PendingInterviewRecord>)
    requires
        interviews_sorted(list),
    ensures
        interviews_unique(list),
{
    assert forall|i: int, j: int| 0 <= i < list.len() && 0 <= j < list.len() && i != j implies (
    #[trigger] list[i]).question_id@ != (#[trigger] list[j]).question_id@ by {
        if i < j {
            lemma_seq_lt_irreflexive(list[i].question_id@);
        } else {
            lemma_seq_lt_irreflexive(list[j].question_id@);
        }
    }
}

impl RunProjection {
    fn find_interview(&self, id: &str) -> (r: Option<usize>)
        ensures
            r matches Some(i) ==> i < self.pending_interviews@.len()
                && self.pending_interviews@[i as int].question_id@ == id@,
            r is None ==> forall|i: int|
                0 <= i < self.pending_interviews@.len() ==> (
                #[trigger] self.pending_interviews@[i]).question_id@ != id@,
    {
        let mut i: usize = 0;
        while i < self.pending_interviews.len()
            invariant
                i <= self.pending_interviews@.len(),
                forall|k: int| 0 <= k < i ==> (#[trigger] self.pending_interviews@[k]).question_id@ != id@,
            decreases self.pending_interviews.len() - i,
        {
            if str_eq(self.pending_interviews[i].question_id.as_str(), id) {
                return Some(i);
            }
            i = i + 1;
        }
        None
    }

    /// Records a started interview question at its place in question-id
    /// order (replacing one with the same id).
    fn put_interview(&mut self, rec: PendingInterviewRecord)
        requires
            interviews_unique(old(self).pending_interviews@),
            interviews_sorted(old(self).pending_interviews@),
        ensures
            interviews_unique(final(self).pending_interviews@),
            interviews_sorted(final(self).pending_interviews@),
            forall|id: Seq<char>|
                #[trigger] interview_of(final(self).pending_interviews@, id) == if id == rec.question_id@ {
                    Some(rec@)
                } else {
                    interview_of(old(self).pending_interviews@, id)
                },
            final(self).stages == old(self).stages,
            final(self).status == old(self).status,
            final(self).status_updated_at == old(self).status_updated_at,
            final(self).last_event_at == old(self).last_event_at,
            final(self).pending_control == old(self).pending_control,
            final(self).final_patch == old(self).final_patch,
            final(self).diff_summary == old(self).diff_summary,
            final(self).superseded_by == old(self).superseded_by,
            final(self).start == old(self).start,
            final(self).graph_source == old(self).graph_source,
            same_records(*old(self), *final(self)),
    {
        let ghost before = self.pending_interviews@;
        let ghost rid = rec.question_id@;
        match self.find_interview(rec.question_id.as_str()) {
            Some(i) => {
                self.pending_interviews.set(i, rec);
                proof {
                    let after = self.pending_interviews@;
                    assert forall|a: int, b: int| 0 <= a < b < after.len() implies seq_lt(
                        (#[trigger] after[a]).question_id@,
                        (#[trigger] after[b]).question_id@,
                    ) by {
                        assert(after[a].question_id@ == before[a].question_id@);
                        assert(after[b].question_id@ == before[b].question_id@);
                    }
                    assert forall|a: int, b: int|
                        0 <= a < after.len() && 0 <= b < after.len() && a != b implies (
                        #[trigger] after[a]).question_id@ != (#[trigger] after[b]).question_id@ by {
                        if a == i {
                            assert(before[i as int].question_id@ == rid);
                            assert(before[b].question_id@ != before[i as int].question_id@);
                        } else if b == i {
                            assert(before[a].question_id@ != before[i as int].question_id@);
                        }
                    }
                    assert forall|id: Seq<char>|
                        #[trigger] interview_of(after, id) == if id == rid {
                            Some(rec@)
                        } else {
                            interview_of(before, id)
                        } by {
                        if id == rid {
                            lemma_interview_of_at(after, i as int);
                        } else {
                            if exists|k: int| 0 <= k < before.len() && (#[trigger] before[k]).question_id@ == id {
                                let k = choose|k: int| 0 <= k < before.len() && (#[trigger] before[k]).question_id@ == id;
                                lemma_interview_of_at(before, k);
                                assert(k != i);
                                assert(after[k] == before[k]);
                                lemma_interview_of_at(after, k);
                            } else {
                                assert forall|k: int| 0 <= k < after.len() implies (#[trigger] after[k]).question_id@ != id by {
                                    if k != i {
                                        assert(after[k] == before[k]);
                                    }
                                }
                            }
                        }
                    }
                }
            },
            None => {
                let mut p: usize = 0;
                while p < self.pending_interviews.len() && !str_lt(
                    rec.question_id.as_str(),
                    self.pending_interviews[p].question_id.as_str(),
                )
                    invariant
                        p <= self.pending_interviews@.len(),
                        self.pending_interviews@ == before,
                        rid == rec.question_id@,
                        forall|k: int| 0 <= k < p ==> !seq_lt(rid, (#[trigger] before[k]).question_id@),
                    decreases self.pending_interviews.len() - p,
                {
                    p = p + 1;
                }
                proof {
                    assert forall|k: int| 0 <= k < p implies seq_lt((#[trigger] before[k]).question_id@, rid) by {
                        lemma_seq_lt_total(before[k].question_id@, rid);
                    }
                    assert forall|k: int| p <= k < before.len() implies seq_lt(rid, (#[trigger] before[k]).question_id@) by {
                        if k > p {
                            lemma_seq_lt_transitive(rid, before[p as int].question_id@, before[k].question_id@);
                        }
                    }
                }
                self.pending_interviews.insert(p, rec);
                proof {
                    let after = self.pending_interviews@;
                    let p = p as int;
                    before.insert_ensures(p, rec);
                    assert(after == before.insert(p, rec));
                    assert forall|a: int, b: int| 0 <= a < b < after.len() implies seq_lt(
                        (#[trigger] after[a]).question_id@,
                        (#[trigger] after[b]).question_id@,
                    ) by {
                        if b < p {
                            assert(after[a] == before[a]);
                            assert(after[b] == before[b]);
                        } else if b == p {
                            assert(after[a] == before[a]);
                        } else if a < p {
                            assert(after[a] == before[a]);
                            assert(after[b] == before[b - 1]);
                            if a < b - 1 {
                                lemma_seq_lt_transitive(before[a].question_id@, rid, before[b - 1].question_id@);
                            }
                        } else if a == p {
                            assert(after[b] == before[b - 1]);
                        } else {
                            assert(after[a] == before[a - 1]);
                            assert(after[b] == before[b - 1]);
                        }
                    }
                    lemma_sorted_unique(after);
                    assert forall|id: Seq<char>|
                        #[trigger] interview_of(after, id) == if id == rid {
                            Some(rec@)
                        } else {
                            interview_of(before, id)
                        } by {
                        if id == rid {
                            lemma_interview_of_at(after, p);
                        } else {
                            if exists|k: int| 0 <= k < before.len() && (#[trigger] before[k]).question_id@ == id {
                                let k = choose|k: int| 0 <= k < before.len() && (#[trigger] before[k]).question_id@ == id;
                                lemma_interview_of_at(before, k);
                                let k2 = if k < p { k } else { k + 1 };
                                assert(after[k2] == before[k]);
                                lemma_interview_of_at(after, k2);
                            } else {
                                assert forall|k: int| 0 <= k < after.len() implies (#[trigger] after[k]).question_id@ != id by {
                                    if k < p {
                                        assert(after[k] == before[k]);
                                    } else if k > p {
                                        assert(after[k] == before[k - 1]);
                                    }
                                }
                            }
                        }
                    }
                }
            },
        }
    }

    /// Forgets a settled interview question.
    fn drop_interview(&mut self, id: &str)
        requires
            interviews_unique(old(self).pending_interviews@),
            interviews_sorted(old(self).pending_interviews@),
        ensures
            interviews_unique(final(self).pending_interviews@),
            interviews_sorted(final(self).pending_interviews@),
            forall|q: Seq<char>|
                #[trigger] interview_of(final(self).pending_interviews@, q) == if q == id@ {
                    None
                } else {
                    interview_of(old(self).pending_interviews@, q)
                },
            final(self).stages == old(self).stages,
            final(self).status == old(self).status,
            final(self).status_updated_at == old(self).status_updated_at,
            final(self).last_event_at == old(self).last_event_at,
            final(self).pending_control == old(self).pending_control,
            final(self).final_patch == old(self).final_patch,
            final(self).diff_summary == old(self).diff_summary,
            final(self).superseded_by == old(self).superseded_by,
            final(self).start == old(self).start,
            final(self).graph_source == old(self).graph_source,
            same_records(*old(self), *final(self)),
    {
        let ghost before = self.pending_interviews@;
        match self.find_interview(id) {
            Some(i) => {
                self.pending_interviews.remove(i);
                proof {
                    let after = self.pending_interviews@;
                    assert forall|a: int, b: int| 0 <= a < b < after.len() implies seq_lt(
                        (#[trigger] after[a]).question_id@,
                        (#[trigger] after[b]).question_id@,
                    ) by {
                        let a2 = if a < i { a } else { a + 1 };
                        let b2 = if b < i { b } else { b + 1 };
                        assert(after[a] == before[a2]);
                        assert(after[b] == before[b2]);
                    }
                    assert forall|a: int, b: int|
                        0 <= a < after.len() && 0 <= b < after.len() && a != b implies (
                        #[trigger] after[a]).question_id@ != (#[trigger] after[b]).question_id@ by {
                        let a2 = if a < i { a } else { a + 1 };
                        let b2 = if b < i { b } else { b + 1 };
                        assert(after[a] == before[a2]);
                        assert(after[b] == before[b2]);
                    }
                    assert forall|q: Seq<char>|
                        #[trigger] interview_of(after, q) == if q == id@ {
                            None
                        } else {
                            interview_of(before, q)
                        } by {
                        if q == id@ {
                            assert forall|k: int| 0 <= k < after.len() implies (#[trigger] after[k]).question_id@ != q by {
                                let k2 = if k < i { k } else { k + 1 };
                                assert(after[k] == before[k2]);
                                assert(k2 != i);
                                assert(before[k2].question_id@ != before[i as int].question_id@);
                            }
                        } else if exists|k: int| 0 <= k < before.len() && (#[trigger] before[k]).question_id@ == q {
                            let k = choose|k: int| 0 <= k < before.len() && (#[trigger] before[k]).question_id@ == q;
                            lemma_interview_of_at(before, k);
                            assert(k != i);
                            let k2 = if k < i { k } else { k - 1 };
                            assert(after[k2] == before[k]);
                            lemma_interview_of_at(after, k2);
                        } else {
                            assert forall|k: int| 0 <= k < after.len() implies (#[trigger] after[k]).question_id@ != q by {
                                let k2 = if k < i { k } else { k + 1 };
                                assert(after[k] == before[k2]);
                            }
                        }
                    }
                }
            },
            None => {
                proof {
                    assert forall|q: Seq<char>|
                        #[trigger] interview_of(before, q) == if q == id@ {
                            None
                        } else {
                            interview_of(before, q)
                        } by {
                        if q == id@ {
                            lemma_interview_of_none(before, q);
                        }
                    }
                }
            },
        }
    }
}

/// The run this projection was superseded by after an event.
pub open spec fn superseded_after(old: Option<RunId>, body: EventBody) -> Option<RunId> {
    match body {
        EventBody::RunSupersededBy { new_run_id } => Some(new_run_id),
        _ => old,
    }
}

/// The start record after an event.
pub open spec fn start_after(old: Option<StartRecord>, e: RunEvent) -> Option<StartRecord> {
    match e.body {
        EventBody::RunStarted { run_branch, base_sha } => Some(
            StartRecord { run_id: e.run_id, start_time: e.ts, run_branch, base_sha },
        ),
        _ => old,
    }
}

/// The workflow source after an event.
pub open spec fn graph_source_after(old: Option<String>, body: EventBody) -> Option<String> {
    match body {
        EventBody::RunCreated { workflow_source } => workflow_source,
        _ => old,
    }
}

/// The conclusion after an event: the end of a run concludes it (a failure
/// with its error rendered with its causes).
pub open spec fn conclusion_updated(old: Option<Conclusion>, e: RunEvent, new: Option<Conclusion>) -> bool {
    match e.body {
        EventBody::RunCompleted { status, duration_ms, final_git_commit_sha, .. } => new == Some(
            Conclusion {
                timestamp: e.ts,
                status: status->Known_0,
                duration_ms,
                failure_reason: None,
                final_git_commit_sha,
            },
        ),
        EventBody::RunFailed { error, causes, duration_ms, git_commit_sha, .. } => {
            &&& new matches Some(c)
            &&& c.timestamp == e.ts
            &&& c.status == StageOutcome::Failed { retry_requested: false }
            &&& c.duration_ms == duration_ms
            &&& c.final_git_commit_sha == git_commit_sha
            &&& c.failure_reason matches Some(f) && f@ == with_causes(error@, causes@)
        },
        _ => new == old,
    }
}

/// The checkpoint a checkpoint event records, taken at the event's time.
pub open spec fn event_checkpoint(e: RunEvent) -> Option<CheckpointView> {
    match e.body {
        EventBody::CheckpointCompleted {
            current_node,
            completed_nodes,
            next_node_id,
            git_commit_sha,
            node_outcomes,
            node_visits,
            ..
        } => Some(
            CheckpointView {
                timestamp: e.ts,
                current_node,
                completed_nodes: completed_nodes@,
                next_node_id,
                git_commit_sha,
                node_outcomes: node_outcomes@,
                node_visits: node_visits@,
            },
        ),
        _ => None,
    }
}

/// The latest checkpoint after an event.
pub open spec fn checkpoint_after(old: Option<CheckpointView>, e: RunEvent) -> Option<CheckpointView> {
    match event_checkpoint(e) {
        Some(c) => Some(c),
        None => old,
    }
}

/// The checkpoint history after an event: a new checkpoint is appended
/// with the event's sequence number.
pub open spec fn checkpoints_after(old: Seq<(u32, CheckpointView)>, e: RunEvent) -> Seq<(u32, CheckpointView)> {
    match event_checkpoint(e) {
        Some(c) => old.push((e.seq, c)),
        None => old,
    }
}

/// The retrospective prompt after an event.
pub open spec fn retro_prompt_after(old: Option<String>, body: EventBody) -> Option<String> {
    match body {
        EventBody::RetroStarted { prompt } => prompt,
        _ => old,
    }
}

/// The retrospective response after an event.
pub open spec fn retro_response_after(old: Option<String>, body: EventBody) -> Option<String> {
    match body {
        EventBody::RetroCompleted { response, .. } => response,
        _ => old,
    }
}

/// The sandbox record after an event.
pub open spec fn sandbox_after(old: Option<SandboxRecord>, body: EventBody) -> Option<SandboxRecord> {
    match body {
        EventBody::SandboxInitialized {
            provider,
            working_directory,
            identifier,
            repo_cloned,
            clone_origin_url,
            clone_branch,
        } => Some(
            SandboxRecord {
                provider,
                working_directory,
                identifier,
                repo_cloned,
                clone_origin_url,
                clone_branch,
            },
        ),
        _ => old,
    }
}

/// The pull request record after an event.
pub open spec fn pull_request_after(old: Option<PullRequestRecord>, body: EventBody) -> Option<PullRequestRecord> {
    match body {
        EventBody::PullRequestCreated { pr_url, pr_number, owner, repo, base_branch, head_branch, title } =>
            Some(
            PullRequestRecord {
                html_url: pr_url,
                number: pr_number,
                owner,
                repo,
                base_branch,
                head_branch,
                title,
            },
        ),
        _ => old,
    }
}

/// The complete effect of an accepted event on a projection.
pub open spec fn applied(old: RunProjection, e: RunEvent, new: RunProjection) -> bool {
    &&& new.last_event_at == Some(e.ts)
    &&& match status_target(old.status, e.body) {
        Some(t) => new.status == Some(t) && new.status_updated_at == if old.status == Some(t) {
            old.status_updated_at
        } else {
            Some(e.ts)
        },
        None => new.status == old.status && new.status_updated_at == old.status_updated_at,
    }
    &&& new.pending_control == control_after(old.pending_control, e.body)
    &&& new.final_patch == patch_after(old.final_patch, e.body)
    &&& new.diff_summary == diff_after(old.diff_summary, e.body)
    &&& new.superseded_by == superseded_after(old.superseded_by, e.body)
    &&& new.start == start_after(old.start, e)
    &&& new.graph_source == graph_source_after(old.graph_source, e.body)
    &&& conclusion_updated(old.conclusion, e, new.conclusion)
    &&& checkpoint_view(new.checkpoint) == checkpoint_after(checkpoint_view(old.checkpoint), e)
    &&& checkpoints_view(new.checkpoints@) == checkpoints_after(checkpoints_view(old.checkpoints@), e)
    &&& new.retro_prompt == retro_prompt_after(old.retro_prompt, e.body)
    &&& new.retro_response == retro_response_after(old.retro_response, e.body)
    &&& new.sandbox == sandbox_after(old.sandbox, e.body)
    &&& new.pull_request == pull_request_after(old.pull_request, e.body)
    &&& interviews_after(old.pending_interviews@, e, new.pending_interviews@)
    &&& match stage_target(old.stages@, e) {
        None => if e.body is CheckpointCompleted {
            forall|n: Seq<char>, v: u32| #[trigger] new.stage_of(n, v) == stage_kept(old, e, n, v)
        } else {
            new.stages@ == old.stages@
        },
        Some(k) => {
            &&& new.stage_of(k.0, k.1) matches Some(st) && stage_updated(
                stage_base(old.stages@, k.0, k.1, e.seq),
                e,
                st,
            )
            &&& forall|n: Seq<char>, v: u32|
                !(n == k.0 && v == k.1) ==> #[trigger] new.stage_of(n, v) == stage_kept(old, e, n, v)
        },
    }
}

/// What an event does to a projection depends on its contents alone, not on
/// the time its last event was recorded.
pub proof fn lemma_applied_same_contents(a: RunProjection, b: RunProjection, e: RunEvent, n: RunProjection)
    requires
        same_but_last_event(a, b),
        applied(a, e, n),
    ensures
        applied(b, e, n),
{
}

impl RunProjection {
    /// Applies a status change, refusing one the transition table refuses.
    fn apply_status(&mut self, new: RunStatus, ts: i64) -> (r: Result<(), ReduceError>)
        ensures
            final(self).stages == old(self).stages,
            final(self).last_event_at == old(self).last_event_at,
            final(self).pending_control == old(self).pending_control,
            final(self).pending_interviews == old(self).pending_interviews,
            final(self).final_patch == old(self).final_patch,
            final(self).diff_summary == old(self).diff_summary,
            final(self).superseded_by == old(self).superseded_by,
            final(self).start == old(self).start,
            final(self).graph_source == old(self).graph_source,
            same_records(*old(self), *final(self)),
            status_change_ok(old(self).status, new) ==> r is Ok,
            !status_change_ok(old(self).status, new) ==> r == Err::<(), ReduceError>(
                ReduceError::InvalidTransition(InvalidTransition { from: old(self).status.unwrap(), to: new }),
            ),
            r is Ok ==> final(self).status == Some(new),
            r is Ok && old(self).status == Some(new) ==> final(self).status_updated_at == old(self).status_updated_at,
            r is Ok && old(self).status != Some(new) ==> final(self).status_updated_at == Some(ts),
            r is Err ==> final(self).status == old(self).status && final(self).status_updated_at == old(self).status_updated_at,
    {
        match self.try_apply_status(new, ts) {
            Ok(()) => Ok(()),
            Err(t) => Err(ReduceError::InvalidTransition(t)),
        }
    }

    /// Folds one event into the projection. An event that asks for a status
    /// change that the transition table refuses is rejected with the
    /// refused pair, and then only the time of the last event has moved.
    pub fn apply_event(&mut self, e: &RunEvent) -> (r: Result<(), ReduceError>)
        requires
            reducer_wf(*old(self)),
            touches_stages(e.body) ==> e.seq != 0,
        ensures
            reducer_wf(*final(self)),
            final(self).last_event_at == Some(e.ts),
            (r is Ok) == event_ok(old(self).status, e.body),
            r is Ok ==> applied(*old(self), *e, *final(self)),
            r matches Err(err) ==> error_is(err, old(self).status, e.body),
            !event_accepted(old(self).status, e.body) ==> same_but_last_event(*old(self), *final(self)),
            event_accepted(old(self).status, e.body) && payload_error(e.body) is Some ==> applied_before_payload_error(
                *old(self),
                *e,
                *final(self),
            ),
    {
        let ghost pre = *self;
        self.last_event_at = Some(e.ts);
        match &e.body {
            EventBody::RunCreated { workflow_source } => {
                self.graph_source = clone_opt_string(workflow_source);
            },
            EventBody::RunStarted { run_branch, base_sha } => {
                self.start = Some(
                    StartRecord {
                        run_id: e.run_id,
                        start_time: e.ts,
                        run_branch: clone_opt_string(run_branch),
                        base_sha: clone_opt_string(base_sha),
                    },
                );
            },
            EventBody::RunSubmitted => {
                self.apply_status(RunStatus::Submitted, e.ts)?;
            },
            EventBody::RunQueued => {
                self.apply_status(RunStatus::Queued, e.ts)?;
            },
            EventBody::RunStarting => {
                self.apply_status(RunStatus::Starting, e.ts)?;
            },
            EventBody::RunRunning => {
                self.apply_status(RunStatus::Running, e.ts)?;
            },
            EventBody::RunBlocked { blocked_reason } => {
                let next = if matches!(self.status, Some(RunStatus::Paused { .. })) {
                    RunStatus::Paused { prior_block: Some(*blocked_reason) }
                } else {
                    RunStatus::Blocked { blocked_reason: *blocked_reason }
                };
                self.apply_status(next, e.ts)?;
            },
            EventBody::RunUnblocked => {
                let next = match self.status {
                    Some(RunStatus::Paused { .. }) => RunStatus::Paused { prior_block: None },
                    _ => RunStatus::Running,
                };
                self.apply_status(next, e.ts)?;
            },
            EventBody::RunRemoving => {
                self.apply_status(RunStatus::Removing, e.ts)?;
            },
            EventBody::RunCancelRequested => {
                self.pending_control = Some(RunControlAction::Cancel);
            },
            EventBody::RunPauseRequested => {
                self.pending_control = Some(RunControlAction::Pause);
            },
            EventBody::RunUnpauseRequested => {
                self.pending_control = Some(RunControlAction::Unpause);
            },
            EventBody::RunPaused => {
                let prior = match self.status {
                    Some(s) => s.blocked_reason(),
                    None => None,
                };
                self.apply_status(RunStatus::Paused { prior_block: prior }, e.ts)?;
                self.pending_control = None;
            },
            EventBody::RunUnpaused => {
                let next = match self.status {
                    Some(RunStatus::Paused { prior_block: Some(r) }) => RunStatus::Blocked {
                        blocked_reason: r,
                    },
                    _ => RunStatus::Running,
                };
                self.apply_status(next, e.ts)?;
                self.pending_control = None;
            },
            EventBody::RunCompleted {
                reason,
                status,
                duration_ms,
                final_git_commit_sha,
                final_patch,
                diff_summary,
            } => {
                self.apply_status(RunStatus::Succeeded { reason: *reason }, e.ts)?;
                self.pending_control = None;
                let outcome = match status {
                    CompletionStatus::Known(o) => *o,
                    CompletionStatus::Unreadable(detail) => {
                        let mut msg: Vec<char> = Vec::new();
                        push_str(&mut msg, "invalid completed stage status: ");
                        push_str(&mut msg, detail.as_str());
                        let text = string_from_range(&msg, 0, msg.len());
                        assert(msg@.subrange(0, msg@.len() as int) =~= msg@);
                        assert(text@ == "invalid completed stage status: "@ + detail@);
                        assert(event_accepted(pre.status, e.body));
                        return Err(ReduceError::InvalidEvent(text));
                    },
                };
                self.conclusion = Some(
                    Conclusion {
                        timestamp: e.ts,
                        status: outcome,
                        duration_ms: *duration_ms,
                        failure_reason: None,
                        final_git_commit_sha: clone_opt_string(final_git_commit_sha),
                    },
                );
                self.final_patch = clone_opt_string(final_patch);
                if diff_summary.is_some() {
                    self.diff_summary = clone_opt_diff(diff_summary);
                }
                self.pending_interviews = Vec::new();
            },
            EventBody::RunFailed {
                reason,
                error,
                causes,
                duration_ms,
                git_commit_sha,
                final_patch,
                diff_summary,
            } => {
                self.apply_status(RunStatus::Failed { reason: *reason }, e.ts)?;
                self.pending_control = None;
                self.conclusion = Some(
                    Conclusion {
                        timestamp: e.ts,
                        status: StageOutcome::Failed { retry_requested: false },
                        duration_ms: *duration_ms,
                        failure_reason: Some(render_with_causes(error.as_str(), causes)),
                        final_git_commit_sha: clone_opt_string(git_commit_sha),
                    },
                );
                self.final_patch = clone_opt_string(final_patch);
                if diff_summary.is_some() {
                    self.diff_summary = clone_opt_diff(diff_summary);
                }
                self.pending_interviews = Vec::new();
            },
            EventBody::RunSupersededBy { new_run_id } => {
                self.superseded_by = Some(*new_run_id);
            },
            EventBody::CheckpointCompleted {
                current_node,
                completed_nodes,
                next_node_id,
                git_commit_sha,
                node_outcomes,
                node_visits,
                diff_summary,
                ..
            } => {
                if diff_summary.is_some() {
                    self.diff_summary = clone_opt_diff(diff_summary);
                }
                let ghost before = *self;
                self.apply_stage_event(e);
                let ghost mid = *self;
                self.record_skipped_stages(node_outcomes, node_visits, e.seq, e.ts);
                let ghost skipped = *self;
                let cp = Checkpoint {
                    timestamp: e.ts,
                    current_node: current_node.clone(),
                    completed_nodes: clone_strings(completed_nodes),
                    next_node_id: clone_opt_string(next_node_id),
                    git_commit_sha: clone_opt_string(git_commit_sha),
                    node_outcomes: clone_node_outcomes(node_outcomes),
                    node_visits: clone_node_visits(node_visits),
                };
                let ghost history = self.checkpoints@;
                self.checkpoint = Some(cp.duplicate());
                self.checkpoints.push((e.seq, cp));
                proof {
                    assert(checkpoints_view(self.checkpoints@) =~= checkpoints_view(history).push((e.seq, cp@)));
                    // Entries the checkpoint does not update keep their old
                    // contents or take the skipped stage it reports.
                    assert(before.stages@ == pre.stages@);
                    assert(self.stages == skipped.stages);
                    assert forall|n: Seq<char>, v: u32|
                        !(stage_target(pre.stages@, *e) == Some((n, v))) implies #[trigger] self.stage_of(n, v)
                        == stage_kept(pre, *e, n, v) by {
                        assert(skipped.stage_of(n, v) == (if mid.stage_of(n, v) is Some {
                            mid.stage_of(n, v)
                        } else {
                            skipped_at(node_outcomes@, node_visits@, e.seq, e.ts, n, v)
                        }));
                        assert(mid.stage_of(n, v) == pre.stage_of(n, v));
                    }
                    if let Some(k) = stage_target(pre.stages@, *e) {
                        assert(stage_target(before.stages@, *e) == Some(k));
                        assert(mid.stage_of(k.0, k.1) is Some);
                        assert(skipped.stage_of(k.0, k.1) == mid.stage_of(k.0, k.1));
                    }
                }
            },
            EventBody::SandboxInitialized {
                provider,
                working_directory,
                identifier,
                repo_cloned,
                clone_origin_url,
                clone_branch,
            } => {
                self.sandbox = Some(
                    SandboxRecord {
                        provider: provider.clone(),
                        working_directory: working_directory.clone(),
                        identifier: clone_opt_string(identifier),
                        repo_cloned: *repo_cloned,
                        clone_origin_url: clone_opt_string(clone_origin_url),
                        clone_branch: clone_opt_string(clone_branch),
                    },
                );
            },
            EventBody::RetroStarted { prompt } => {
                self.retro_prompt = clone_opt_string(prompt);
            },
            EventBody::RetroCompleted { response, retro_error } => {
                self.retro_response = clone_opt_string(response);
                if let Some(detail) = retro_error {
                    let mut msg: Vec<char> = Vec::new();
                    push_str(&mut msg, "invalid retro payload: ");
                    push_str(&mut msg, detail.as_str());
                    let text = string_from_range(&msg, 0, msg.len());
                    assert(msg@.subrange(0, msg@.len() as int) =~= msg@);
                    return Err(ReduceError::InvalidEvent(text));
                }
            },
            EventBody::PullRequestCreated {
                pr_url,
                pr_number,
                owner,
                repo,
                base_branch,
                head_branch,
                title,
            } => {
                self.pull_request = Some(
                    PullRequestRecord {
                        html_url: pr_url.clone(),
                        number: *pr_number,
                        owner: owner.clone(),
                        repo: repo.clone(),
                        base_branch: base_branch.clone(),
                        head_branch: head_branch.clone(),
                        title: title.clone(),
                    },
                );
            },
            EventBody::InterviewStarted {
                question_id,
                question,
                stage,
                question_type,
                options,
                allow_freeform,
                timeout_seconds,
                context_display,
            } => {
                if !question_id.as_str().is_empty() {
                    self.put_interview(
                        PendingInterviewRecord {
                            question_id: question_id.clone(),
                            text: question.clone(),
                            stage: stage.clone(),
                            question_type: question_type.clone(),
                            options: clone_options(options),
                            allow_freeform: *allow_freeform,
                            timeout_seconds: *timeout_seconds,
                            context_display: clone_opt_string(context_display),
                            started_at: Some(e.ts),
                        },
                    );
                } else {
                    proof {
                        assert(question_id@.len() == 0);
                    }
                }
            },
            EventBody::InterviewCompleted { question_id }
            | EventBody::InterviewTimeout { question_id }
            | EventBody::InterviewInterrupted { question_id } => {
                if !question_id.as_str().is_empty() {
                    self.drop_interview(question_id.as_str());
                }
            },
            EventBody::Other => {},
            _ => {
                self.apply_stage_event(e);
                proof {
                    assert(!(e.body is CheckpointCompleted));
                    assert forall|n: Seq<char>, v: u32| #[trigger] stage_kept(pre, *e, n, v) == pre.stage_of(n, v) by {}
                }
            },
        }
        Ok(())
    }

    /// Folds a whole event stream into a fresh projection, stopping at the
    /// first rejected event.
    #[verifier::rlimit(40)]
    pub fn apply_events(events: &Vec<RunEvent>) -> (r: Result<RunProjection, ReduceError>)
        requires
            forall|i: int| 0 <= i < events@.len() && touches_stages(#[trigger] events@[i].body) ==> events@[i].seq != 0,
        ensures
            (r is Ok) == stream_accepted(events@),
            r matches Ok(p) ==> reducer_wf(p) && exists|chain: Seq<RunProjection>|
                folds(events@, chain) && chain.last() == p,
            r matches Ok(p) ==> forall|chain: Seq<RunProjection>|
                #[trigger] folds(events@, chain) ==> same_content(chain.last(), p),
            r matches Err(t) ==> exists|k: int|
                0 <= k < events@.len() && accepted_before(events@, k) && !event_ok(
                    replay_status(events@.take(k)),
                    (#[trigger] events@[k]).body,
                ) && error_is(t, replay_status(events@.take(k)), events@[k].body),
    {
        let mut state = RunProjection::new();
        let ghost mut chain: Seq<RunProjection> = seq![state];
        let mut i: usize = 0;
        while i < events.len()
            invariant
                i <= events@.len(),
                reducer_wf(state),
                forall|k: int| 0 <= k < events@.len() && touches_stages(#[trigger] events@[k].body) ==> events@[k].seq != 0,
                chain.len() == i + 1,
                is_fresh(chain[0]),
                forall|k: int| 0 <= k < i ==> applied(#[trigger] chain[k], events@[k], chain[k + 1]),
                chain.last() == state,
                state.status == replay_status(events@.take(i as int)),
                accepted_before(events@, i as int),
            decreases events.len() - i,
        {
            let ghost pre = state;
            assert(events@.take(i as int + 1).drop_last() =~= events@.take(i as int));
            match state.apply_event(&events[i]) {
                Ok(()) => {},
                Err(t) => {
                    return Err(t);
                },
            }
            proof {
                let prev_chain = chain;
                chain = chain.push(state);
                assert forall|k: int| 0 <= k < i + 1 implies applied(#[trigger] chain[k], events@[k], chain[k + 1]) by {
                    if k < i {
                        assert(chain[k] == prev_chain[k]);
                        assert(chain[k + 1] == prev_chain[k + 1]);
                    }
                }
                assert forall|k: int| 0 <= k < i + 1 implies event_ok(
                    replay_status(events@.take(k)),
                    (#[trigger] events@[k]).body,
                ) by {}
            }
            i = i + 1;
        }
        proof {
            assert(events@.take(i as int) =~= events@);
            assert(folds(events@, chain));
            assert forall|other: Seq<RunProjection>| #[trigger] folds(events@, other) implies same_content(
                other.last(),
                state,
            ) by {
                law_stream_fold_is_stepwise(events@, other, chain);
            }
        }
        Ok(state)
    }
}

/// The status after a stream of events, each taken as accepted.
pub open spec fn replay_status(events: Seq<RunEvent>) -> Option<RunStatus>
    decreases events.len(),
{
    if events.len() == 0 {
        None
    } else {
        let s = replay_status(events.drop_last());
        match status_target(s, events.last().body) {
            Some(t) => Some(t),
            None => s,
        }
    }
}

/// Every event before the `k`-th is taken whole at the status it meets.
pub open spec fn accepted_before(events: Seq<RunEvent>, k: int) -> bool {
    forall|j: int| 0 <= j < k ==> event_ok(replay_status(events.take(j)), (#[trigger] events[j]).body)
}

/// Every event of the stream is accepted.
pub open spec fn stream_accepted(events: Seq<RunEvent>) -> bool {
    accepted_before(events, events.len() as int)
}

/// `chain` lists the projections from a fresh one through each event of the
/// stream in turn.
pub open spec fn folds(events: Seq<RunEvent>, chain: Seq<RunProjection>) -> bool {
    &&& chain.len() == events.len() + 1
    &&& is_fresh(chain[0])
    &&& forall|k: int| 0 <= k < events.len() ==> applied(#[trigger] chain[k], events[k], chain[k + 1])
}

// ---------------------------------------------------------------------------
// Laws

/// An event whose target status is the current one changes neither the
/// status nor the time it last changed.
pub proof fn law_same_status_is_noop(p: RunProjection, e: RunEvent, q: RunProjection)
    requires
        applied(p, e, q),
        status_target(p.status, e.body) == p.status,
    ensures
        q.status == p.status,
        q.status_updated_at == p.status_updated_at,
{
}

/// Replaying a status event is a no-op for its status and timestamp, for
/// every status event except an unpause (which from a paused-over-blocked
/// run first restores the block and then, replayed, resumes running).
pub proof fn law_status_replay_idempotent(
    p: RunProjection,
    e1: RunEvent,
    p1: RunProjection,
    e2: RunEvent,
    p2: RunProjection,
)
    requires
        applied(p, e1, p1),
        applied(p1, e2, p2),
        e1.body == e2.body,
        status_target(p.status, e1.body) is Some,
        !(e1.body is RunUnpaused),
    ensures
        p2.status == p1.status,
        p2.status_updated_at == p1.status_updated_at,
{
}

/// Every status change an accepted event makes is allowed by the
/// transition table.
pub proof fn law_status_changes_follow_table(p: RunProjection, e: RunEvent, q: RunProjection)
    requires
        applied(p, e, q),
        event_accepted(p.status, e.body),
        p.status is Some,
        q.status != p.status,
    ensures
        p.status.unwrap().allows(q.status.unwrap()),
{
}

/// Pausing a blocked run and unpausing it again gives back the block.
pub proof fn law_pause_over_blocked_round_trips(
    p: RunProjection,
    pause: RunEvent,
    p1: RunProjection,
    unpause: RunEvent,
    p2: RunProjection,
    r: BlockedReason,
)
    requires
        p.status == Some(RunStatus::Blocked { blocked_reason: r }),
        pause.body is RunPaused,
        unpause.body is RunUnpaused,
        applied(p, pause, p1),
        applied(p1, unpause, p2),
    ensures
        p1.status == Some(RunStatus::Paused { prior_block: Some(r) }),
        p2.status == Some(RunStatus::Blocked { blocked_reason: r }),
{
}

/// Once a stage entry exists, no later event moves its first event
/// sequence: stage order is fixed by the first event seen for each stage.
pub proof fn law_first_event_seq_is_stable(
    p: RunProjection,
    e: RunEvent,
    q: RunProjection,
    node: Seq<char>,
    visit: u32,
)
    requires
        applied(p, e, q),
        p.stage_of(node, visit) is Some,
    ensures
        q.stage_of(node, visit) is Some,
        q.stage_of(node, visit).unwrap().first_event_seq == p.stage_of(
            node,
            visit,
        ).unwrap().first_event_seq,
{
}

/// The end of a run settles everything pending: control requests and
/// interview questions.
pub proof fn law_run_end_clears_pending(p: RunProjection, e: RunEvent, q: RunProjection)
    requires
        applied(p, e, q),
        e.body is RunCompleted || e.body is RunFailed,
    ensures
        q.pending_control is None,
        q.pending_interviews@.len() == 0,
        q.status matches Some(s) && s.terminal(),
{
}

/// A run that has paused or resumed has fulfilled the pause or unpause
/// request: after an accepted `RunPaused` or `RunUnpaused` event no control
/// request is pending, whatever was pending before.
pub proof fn law_pause_and_unpause_fulfil_control(p: RunProjection, e: RunEvent, q: RunProjection)
    requires
        applied(p, e, q),
        e.body is RunPaused || e.body is RunUnpaused,
    ensures
        q.pending_control is None,
{
}

/// A control request is recorded until it is fulfilled: after an accepted
/// cancel, pause or unpause request that action is pending, and events that
/// neither request, fulfil nor end anything keep what was pending.
pub proof fn law_control_requests_are_recorded(p: RunProjection, e: RunEvent, q: RunProjection)
    requires
        applied(p, e, q),
    ensures
        e.body is RunCancelRequested ==> q.pending_control == Some(RunControlAction::Cancel),
        e.body is RunPauseRequested ==> q.pending_control == Some(RunControlAction::Pause),
        e.body is RunUnpauseRequested ==> q.pending_control == Some(RunControlAction::Unpause),
        !(e.body is RunCancelRequested || e.body is RunPauseRequested || e.body is RunUnpauseRequested
            || e.body is RunPaused || e.body is RunUnpaused || e.body is RunCompleted || e.body is RunFailed)
            ==> q.pending_control == p.pending_control,
{
}

/// A checkpoint leaves every existing stage entry as it was, but for the
/// one its diff lands on, and adds entries only for the nodes it reports as
/// skipped.
pub proof fn law_checkpoint_keeps_existing_stages(
    p: RunProjection,
    e: RunEvent,
    q: RunProjection,
    node: Seq<char>,
    visit: u32,
)
    requires
        applied(p, e, q),
        e.body is CheckpointCompleted,
        stage_target(p.stages@, e) != Some((node, visit)),
    ensures
        p.stage_of(node, visit) is Some ==> q.stage_of(node, visit) == p.stage_of(node, visit),
        p.stage_of(node, visit) is None && q.stage_of(node, visit) is Some ==> (q.stage_of(node, visit).unwrap().completion
            matches Some(c) && c.outcome == StageOutcome::Skipped),
{
    let body = e.body;
    if let EventBody::CheckpointCompleted { node_outcomes, .. } = body {
        if p.stage_of(node, visit) is None && q.stage_of(node, visit) is Some {
            lemma_first_skipped_is_skipped(node_outcomes@, node);
        }
    }
}

proof fn lemma_first_skipped_is_skipped(outcomes: Seq<(String, NodeOutcome)>, node: Seq<char>)
    ensures
        first_skipped(outcomes, node) matches Some(o) ==> o.status == StageOutcome::Skipped,
    decreases outcomes.len(),
{
    if outcomes.len() > 0 {
        lemma_first_skipped_is_skipped(outcomes.drop_last(), node);
    }
}

/// The end of a run concludes it, with the run's duration, at the event's
/// time; a failure concludes it as failed.
pub proof fn law_run_end_concludes(p: RunProjection, e: RunEvent, q: RunProjection)
    requires
        applied(p, e, q),
        e.body is RunCompleted || e.body is RunFailed,
    ensures
        q.conclusion matches Some(c) && c.timestamp == e.ts,
        e.body is RunFailed ==> q.conclusion.unwrap().status == (StageOutcome::Failed { retry_requested: false }),
{
}

/// The time of the last event is the time of the event last applied.
pub proof fn law_last_event_at_tracks_latest_event(p: RunProjection, e: RunEvent, q: RunProjection)
    requires
        applied(p, e, q),
    ensures
        q.last_event_at == Some(e.ts),
{
}

/// An accepted event either leaves the status and the time it changed as
/// they were, or moves the status along an edge of the transition table (or
/// sets the first status) and stamps it with the event's time.
pub proof fn law_status_change_is_stamped(p: RunProjection, e: RunEvent, q: RunProjection)
    requires
        applied(p, e, q),
        event_accepted(p.status, e.body),
    ensures
        (q.status == p.status && q.status_updated_at == p.status_updated_at) || (q.status_updated_at == Some(
            e.ts,
        ) && q.status is Some && (p.status is None || p.status.unwrap().allows(q.status.unwrap()))),
{
}

/// A diff summary, once known, is never blanked: events that carry one
/// replace it, others keep it.
pub proof fn law_diff_summary_never_blanked(p: RunProjection, e: RunEvent, q: RunProjection)
    requires
        applied(p, e, q),
        p.diff_summary is Some,
    ensures
        q.diff_summary is Some,
{
}

/// Only stage events touch the stage entries; the others (which may carry
/// any sequence number) leave them as they were.
pub proof fn law_only_stage_events_touch_stages(p: RunProjection, e: RunEvent, q: RunProjection)
    requires
        applied(p, e, q),
        !touches_stages(e.body),
    ensures
        q.stages@ == p.stages@,
{
}

/// An event the projection does not read only moves the time of the last
/// event.
pub proof fn law_unread_events_only_touch_time(p: RunProjection, e: RunEvent, q: RunProjection)
    requires
        applied(p, e, q),
        e.body is Other,
    ensures
        same_but_last_event(p, q),
        q.last_event_at == Some(e.ts),
{
}

/// Folding run events into a projection.
pub trait RunProjectionReducer: Sized {
    /// The state is one the reducer can continue from.
    spec fn reducer_ready(&self) -> bool;

    /// Folds a whole event stream into a fresh state.
    fn apply_events(events: &Vec<RunEvent>) -> (r: Result<Self, ReduceError>)
        requires
            forall|i: int| 0 <= i < events@.len() && touches_stages(#[trigger] events@[i].body) ==> events@[i].seq != 0,
        ensures
            r matches Ok(p) ==> p.reducer_ready(),
    ;

    /// Folds one event into the state.
    fn apply_event(&mut self, e: &RunEvent) -> (r: Result<(), ReduceError>)
        requires
            old(self).reducer_ready(),
            touches_stages(e.body) ==> e.seq != 0,
        ensures
            final(self).reducer_ready(),
    ;
}

impl RunProjectionReducer for RunProjection {
    open spec fn reducer_ready(&self) -> bool {
        reducer_wf(*self)
    }

    fn apply_events(events: &Vec<RunEvent>) -> (r: Result<RunProjection, ReduceError>)
        ensures
            (r is Ok) == stream_accepted(events@),
            r matches Ok(p) ==> exists|chain: Seq<RunProjection>| folds(events@, chain) && chain.last() == p,
    {
        RunProjection::apply_events(events)
    }

    fn apply_event(&mut self, e: &RunEvent) -> (r: Result<(), ReduceError>)
        ensures
            (r is Ok) == event_ok(old(self).status, e.body),
            r is Ok ==> applied(*old(self), *e, *final(self)),
            r matches Err(err) ==> error_is(err, old(self).status, e.body),
    {
        RunProjection::apply_event(self, e)
    }
}

} // verus!

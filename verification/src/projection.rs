//! The materialised view of a run: its status and one projection per stage
//! visit, kept in the order in which the stages first appeared.

use vstd::prelude::*;
use crate::ids::{RunId, StageId, seq_lt, str_lt};
use crate::status::{InvalidTransition, RunControlAction, RunStatus};
use crate::text::str_eq;
use crate::interview::InterviewOption;

verus! {

/// How a stage attempt ended.
#[derive(Debug, Clone, Copy, PartialEq, Eq, Structural)]
pub enum StageOutcome {
    Succeeded,
    PartialSuccess,
    Failed { retry_requested: bool },
    Skipped,
}

/// Lifecycle state of a stage.
#[derive(Debug, Clone, Copy, PartialEq, Eq, Structural)]
pub enum StageState {
    Pending,
    Running,
    Retrying,
    Succeeded,
    PartialSuccess,
    Failed,
    Skipped,
}

impl StageState {
    /// The state that an outcome leaves a stage in.
    pub open spec fn of_outcome(o: StageOutcome) -> StageState {
        match o {
            StageOutcome::Succeeded => StageState::Succeeded,
            StageOutcome::PartialSuccess => StageState::PartialSuccess,
            StageOutcome::Failed { .. } => StageState::Failed,
            StageOutcome::Skipped => StageState::Skipped,
        }
    }

    pub fn from_outcome(o: StageOutcome) -> (s: StageState)
        ensures
            s == StageState::of_outcome(o),
    {
        match o {
            StageOutcome::Succeeded => StageState::Succeeded,
            StageOutcome::PartialSuccess => StageState::PartialSuccess,
            StageOutcome::Failed { .. } => StageState::Failed,
            StageOutcome::Skipped => StageState::Skipped,
        }
    }
}

/// How a command or CLI agent run ended.
#[derive(Debug, Clone, Copy, PartialEq, Eq, Structural)]
pub enum CommandTermination {
    Exited,
    Cancelled,
    TimedOut,
}

/// The recorded completion of a stage attempt.
#[derive(Debug, Clone, PartialEq, Eq)]
pub struct StageCompletion {
    pub outcome: StageOutcome,
    pub notes: Option<String>,
    pub failure_reason: Option<String>,
    pub timestamp: i64,
}

/// Which provider served a stage: the entries of the `provider_used` object.
#[derive(Debug, Clone, PartialEq, Eq)]
pub struct ProviderUsed {
    pub mode: Option<String>,
    pub provider: Option<String>,
    pub model: Option<String>,
    pub command: Option<String>,
}

/// The projection of one stage visit. Timestamps are Unix milliseconds.
#[derive(Debug, Clone, PartialEq, Eq)]
pub struct StageProjection {
    pub first_event_seq: u32,
    pub prompt: Option<String>,
    pub response: Option<String>,
    pub completion: Option<StageCompletion>,
    pub provider_used: Option<ProviderUsed>,
    pub diff: Option<String>,
    pub stdout: Option<String>,
    pub stderr: Option<String>,
    pub stdout_bytes: Option<u64>,
    pub stderr_bytes: Option<u64>,
    pub streams_separated: Option<bool>,
    pub live_streaming: Option<bool>,
    pub termination: Option<CommandTermination>,
    pub started_at: Option<i64>,
    pub duration_ms: Option<u64>,
    pub usage: Option<BilledModelUsage>,
    pub state: Option<StageState>,
}

/// What a stage attempt was billed: the model that served it (provider and
/// id), the tokens it read and wrote, and its price in millionths of a US
/// dollar when known.
#[derive(Debug, Clone, PartialEq, Eq)]
pub struct BilledModelUsage {
    pub provider: String,
    pub model_id: String,
    pub input_tokens: i64,
    pub output_tokens: i64,
    pub total_usd_micros: Option<i64>,
}

impl BilledModelUsage {
    pub fn duplicate(&self) -> (r: BilledModelUsage)
        ensures
            r == *self,
    {
        BilledModelUsage {
            provider: self.provider.clone(),
            model_id: self.model_id.clone(),
            input_tokens: self.input_tokens,
            output_tokens: self.output_tokens,
            total_usd_micros: self.total_usd_micros,
        }
    }
}

/// A copy of an optional usage record.
pub fn clone_opt_usage(u: &Option<BilledModelUsage>) -> (r: Option<BilledModelUsage>)
    ensures
        r == *u,
{
    match u {
        Some(x) => Some(x.duplicate()),
        None => None,
    }
}

/// A fresh stage projection: only the first event sequence is set.
pub open spec fn fresh_stage(seq: u32) -> StageProjection {
    StageProjection {
        first_event_seq: seq,
        prompt: None,
        response: None,
        completion: None,
        provider_used: None,
        diff: None,
        stdout: None,
        stderr: None,
        stdout_bytes: None,
        stderr_bytes: None,
        streams_separated: None,
        live_streaming: None,
        termination: None,
        started_at: None,
        duration_ms: None,
        usage: None,
        state: None,
    }
}

/// `first_event_seq`: run event sequence numbers start at 1, so the value is
/// a sequence number that is not zero.
pub fn first_event_seq(seq: u32) -> (r: u32)
    requires
        seq != 0,
    ensures
        r == seq,
{
    seq
}

pub fn clone_opt_string(s: &Option<String>) -> (r: Option<String>)
    ensures
        r == *s,
{
    match s {
        Some(x) => Some(x.clone()),
        None => None,
    }
}

impl ProviderUsed {
    pub fn duplicate(&self) -> (r: ProviderUsed)
        ensures
            r == *self,
    {
        ProviderUsed {
            mode: clone_opt_string(&self.mode),
            provider: clone_opt_string(&self.provider),
            model: clone_opt_string(&self.model),
            command: clone_opt_string(&self.command),
        }
    }
}

impl StageCompletion {
    pub fn duplicate(&self) -> (r: StageCompletion)
        ensures
            r == *self,
    {
        StageCompletion {
            outcome: self.outcome,
            notes: clone_opt_string(&self.notes),
            failure_reason: clone_opt_string(&self.failure_reason),
            timestamp: self.timestamp,
        }
    }
}

impl StageProjection {
    pub fn new(first_event_seq: u32) -> (r: StageProjection)
        requires
            first_event_seq != 0,
        ensures
            r == fresh_stage(first_event_seq),
    {
        StageProjection {
            first_event_seq,
            prompt: None,
            response: None,
            completion: None,
            provider_used: None,
            diff: None,
            stdout: None,
            stderr: None,
            stdout_bytes: None,
            stderr_bytes: None,
            streams_separated: None,
            live_streaming: None,
            termination: None,
            started_at: None,
            duration_ms: None,
            usage: None,
            state: None,
        }
    }

    pub fn duplicate(&self) -> (r: StageProjection)
        ensures
            r == *self,
    {
        StageProjection {
            first_event_seq: self.first_event_seq,
            prompt: clone_opt_string(&self.prompt),
            response: clone_opt_string(&self.response),
            completion: match &self.completion {
                Some(c) => Some(c.duplicate()),
                None => None,
            },
            provider_used: match &self.provider_used {
                Some(p) => Some(p.duplicate()),
                None => None,
            },
            diff: clone_opt_string(&self.diff),
            stdout: clone_opt_string(&self.stdout),
            stderr: clone_opt_string(&self.stderr),
            stdout_bytes: self.stdout_bytes,
            stderr_bytes: self.stderr_bytes,
            streams_separated: self.streams_separated,
            live_streaming: self.live_streaming,
            termination: self.termination,
            started_at: self.started_at,
            duration_ms: self.duration_ms,
            usage: clone_opt_usage(&self.usage),
            state: self.state,
        }
    }

    /// The stored state, or for projections written before the state was
    /// stored, the state derived from the completion (running without one).
    pub open spec fn effective_state_spec(self) -> StageState {
        match self.state {
            Some(s) => s,
            None => match self.completion {
                Some(c) => StageState::of_outcome(c.outcome),
                None => StageState::Running,
            },
        }
    }

    pub fn effective_state(&self) -> (s: StageState)
        ensures
            s == self.effective_state_spec(),
    {
        match self.state {
            Some(s) => s,
            None => match &self.completion {
                Some(c) => StageState::from_outcome(c.outcome),
                None => StageState::Running,
            },
        }
    }

    /// Live runtime in milliseconds: while the stage is pending, running or
    /// retrying, the time since it started (not below zero); once it has
    /// ended, the stored duration.
    pub open spec fn runtime_ms_spec(self, now: i64) -> Option<int> {
        let st = self.effective_state_spec();
        if st is Running || st is Retrying || st is Pending {
            match self.started_at {
                Some(started) => Some(if now - started < 0 {
                    0
                } else {
                    now - started
                }),
                None => None,
            }
        } else {
            match self.duration_ms {
                Some(ms) => Some(ms as int),
                None => None,
            }
        }
    }

    pub fn runtime_ms(&self, now: i64) -> (r: Option<i128>)
        ensures
            r matches Some(x) ==> self.runtime_ms_spec(now) == Some(x as int),
            r is None ==> self.runtime_ms_spec(now) is None,
    {
        let st = self.effective_state();
        if matches!(st, StageState::Running | StageState::Retrying | StageState::Pending) {
            match self.started_at {
                Some(started) => {
                    let d = (now as i128) - (started as i128);
                    Some(if d < 0 {
                        0
                    } else {
                        d
                    })
                },
                None => None,
            }
        } else {
            match self.duration_ms {
                Some(ms) => Some(ms as i128),
                None => None,
            }
        }
    }

    /// Begins a new attempt: every per-attempt field is cleared, the start
    /// time recorded and the state set to running; the first event sequence
    /// (the stage's identity and sort key) stays.
    pub fn begin_attempt(&mut self, started_at: i64)
        ensures
            *final(self) == (StageProjection {
                started_at: Some(started_at),
                state: Some(StageState::Running),
                ..fresh_stage(old(self).first_event_seq)
            }),
    {
        *self = StageProjection {
            first_event_seq: self.first_event_seq,
            prompt: None,
            response: None,
            completion: None,
            provider_used: None,
            diff: None,
            stdout: None,
            stderr: None,
            stdout_bytes: None,
            stderr_bytes: None,
            streams_separated: None,
            live_streaming: None,
            termination: None,
            started_at: Some(started_at),
            duration_ms: None,
            usage: None,
            state: Some(StageState::Running),
        };
    }
}

/// An interview question waiting for an answer.
#[derive(Debug, Clone, PartialEq, Eq)]
pub struct PendingInterviewRecord {
    pub question_id: String,
    pub text: String,
    pub stage: String,
    pub question_type: String,
    pub options: Vec<InterviewOption>,
    pub allow_freeform: bool,
    pub timeout_seconds: Option<u64>,
    pub context_display: Option<String>,
    pub started_at: Option<i64>,
}

/// A pending interview question by content, its options as a sequence.
pub struct InterviewView {
    pub question_id: Seq<char>,
    pub text: Seq<char>,
    pub stage: Seq<char>,
    pub question_type: Seq<char>,
    pub options: Seq<InterviewOption>,
    pub allow_freeform: bool,
    pub timeout_seconds: Option<u64>,
    pub context_display: Option<String>,
    pub started_at: Option<i64>,
}

impl View for PendingInterviewRecord {
    type V = InterviewView;

    open spec fn view(&self) -> InterviewView {
        InterviewView {
            question_id: self.question_id@,
            text: self.text@,
            stage: self.stage@,
            question_type: self.question_type@,
            options: self.options@,
            allow_freeform: self.allow_freeform,
            timeout_seconds: self.timeout_seconds,
            context_display: self.context_display,
            started_at: self.started_at,
        }
    }
}

/// The contents of a list of pending interviews.
pub open spec fn interview_views(list: Seq<PendingInterviewRecord>) -> Seq<InterviewView> {
    list.map_values(|r: PendingInterviewRecord| r@)
}

/// Change set of a run, as line counts.
#[derive(Debug, Clone, Copy, PartialEq, Eq, Structural)]
pub struct DiffSummary {
    pub files_changed: i64,
    pub additions: i64,
    pub deletions: i64,
}

/// Where a run's execution started.
#[derive(Debug, Clone, PartialEq, Eq)]
pub struct StartRecord {
    pub run_id: RunId,
    pub start_time: i64,
    pub run_branch: Option<String>,
    pub base_sha: Option<String>,
}

/// What a checkpoint reports of one node: its outcome, the notes it left
/// and the message of its failure, if any.
#[derive(Debug, Clone, PartialEq, Eq)]
pub struct NodeOutcome {
    pub status: StageOutcome,
    pub notes: Option<String>,
    pub failure_message: Option<String>,
}

/// A completed checkpoint of the workflow: when it was taken, the node it
/// stands at, the nodes already done, where it goes next, its commit, and
/// each node's outcome and visit count (both keyed by node id).
#[derive(Debug, Clone)]
pub struct Checkpoint {
    pub timestamp: i64,
    pub current_node: String,
    pub completed_nodes: Vec<String>,
    pub next_node_id: Option<String>,
    pub git_commit_sha: Option<String>,
    pub node_outcomes: Vec<(String, NodeOutcome)>,
    pub node_visits: Vec<(String, u64)>,
}

/// A checkpoint by content, its lists as sequences.
pub struct CheckpointView {
    pub timestamp: i64,
    pub current_node: String,
    pub completed_nodes: Seq<String>,
    pub next_node_id: Option<String>,
    pub git_commit_sha: Option<String>,
    pub node_outcomes: Seq<(String, NodeOutcome)>,
    pub node_visits: Seq<(String, u64)>,
}

impl View for Checkpoint {
    type V = CheckpointView;

    open spec fn view(&self) -> CheckpointView {
        CheckpointView {
            timestamp: self.timestamp,
            current_node: self.current_node,
            completed_nodes: self.completed_nodes@,
            next_node_id: self.next_node_id,
            git_commit_sha: self.git_commit_sha,
            node_outcomes: self.node_outcomes@,
            node_visits: self.node_visits@,
        }
    }
}

/// How a run ended: when, with what outcome, after how long, why it failed
/// (when it did) and the last commit it reached.
#[derive(Debug, Clone, PartialEq, Eq)]
pub struct Conclusion {
    pub timestamp: i64,
    pub status: StageOutcome,
    pub duration_ms: u64,
    pub failure_reason: Option<String>,
    pub final_git_commit_sha: Option<String>,
}

/// The sandbox a run was given: its provider, working directory, provider
/// identifier, and whether (and from where, at which branch) the
/// repository was cloned into it.
#[derive(Debug, Clone, PartialEq, Eq)]
pub struct SandboxRecord {
    pub provider: String,
    pub working_directory: String,
    pub identifier: Option<String>,
    pub repo_cloned: Option<bool>,
    pub clone_origin_url: Option<String>,
    pub clone_branch: Option<String>,
}

/// The pull request a run opened.
#[derive(Debug, Clone, PartialEq, Eq)]
pub struct PullRequestRecord {
    pub html_url: String,
    pub number: u64,
    pub owner: String,
    pub repo: String,
    pub base_branch: String,
    pub head_branch: String,
    pub title: String,
}

/// The contents of an optional checkpoint.
pub open spec fn checkpoint_view(c: Option<Checkpoint>) -> Option<CheckpointView> {
    match c {
        Some(x) => Some(x@),
        None => None,
    }
}

/// The contents of a checkpoint history, each with its event sequence.
pub open spec fn checkpoints_view(s: Seq<(u32, Checkpoint)>) -> Seq<(u32, CheckpointView)> {
    s.map_values(|p: (u32, Checkpoint)| (p.0, p.1@))
}

/// The run records beside the status, stages and interviews (checkpoints,
/// conclusion, retrospective, sandbox and pull request) have the same
/// contents.
pub open spec fn same_records(a: RunProjection, b: RunProjection) -> bool {
    &&& checkpoint_view(a.checkpoint) == checkpoint_view(b.checkpoint)
    &&& checkpoints_view(a.checkpoints@) == checkpoints_view(b.checkpoints@)
    &&& a.conclusion == b.conclusion
    &&& a.retro_prompt == b.retro_prompt
    &&& a.retro_response == b.retro_response
    &&& a.sandbox == b.sandbox
    &&& a.pull_request == b.pull_request
}

/// The projection of a run's event stream.
#[derive(Debug, Clone)]
pub struct RunProjection {
    pub graph_source: Option<String>,
    pub start: Option<StartRecord>,
    pub status: Option<RunStatus>,
    pub status_updated_at: Option<i64>,
    pub last_event_at: Option<i64>,
    pub pending_control: Option<RunControlAction>,
    pub final_patch: Option<String>,
    pub diff_summary: Option<DiffSummary>,
    pub superseded_by: Option<RunId>,
    pub checkpoint: Option<Checkpoint>,
    pub checkpoints: Vec<(u32, Checkpoint)>,
    pub conclusion: Option<Conclusion>,
    pub retro_prompt: Option<String>,
    pub retro_response: Option<String>,
    pub sandbox: Option<SandboxRecord>,
    pub pull_request: Option<PullRequestRecord>,
    pub pending_interviews: Vec<PendingInterviewRecord>,
    pub stages: Vec<(StageId, StageProjection)>,
}

/// Index of the stage entry for `(node, visit)`, or -1.
pub open spec fn stage_index(
    stages: Seq<(StageId, StageProjection)>,
    node: Seq<char>,
    visit: u32,
) -> int
    decreases stages.len(),
{
    if stages.len() == 0 {
        -1
    } else if stages.last().0.node_id@ == node && stages.last().0.visit == visit {
        stages.len() - 1
    } else {
        stage_index(stages.drop_last(), node, visit)
    }
}

pub proof fn lemma_stage_index(stages: Seq<(StageId, StageProjection)>, node: Seq<char>, visit: u32)
    ensures
        -1 <= stage_index(stages, node, visit) < stages.len(),
        stage_index(stages, node, visit) >= 0 ==> stages[stage_index(stages, node, visit)].0.node_id@
            == node && stages[stage_index(stages, node, visit)].0.visit == visit,
        stage_index(stages, node, visit) < 0 ==> forall|i: int|
            0 <= i < stages.len() ==> !(#[trigger] stages[i].0.node_id@ == node && stages[i].0.visit
                == visit),
    decreases stages.len(),
{
    if stages.len() > 0 && !(stages.last().0.node_id@ == node && stages.last().0.visit == visit) {
        lemma_stage_index(stages.drop_last(), node, visit);
        if stage_index(stages, node, visit) < 0 {
            assert forall|i: int| 0 <= i < stages.len() implies !(#[trigger] stages[i].0.node_id@
                == node && stages[i].0.visit == visit) by {
                if i < stages.len() - 1 {
                    assert(stages[i] == stages.drop_last()[i]);
                }
            }
        }
    }
}

/// The stage projection of `(node, visit)` among the entries, if any.
pub open spec fn stage_in(
    stages: Seq<(StageId, StageProjection)>,
    node: Seq<char>,
    visit: u32,
) -> Option<StageProjection> {
    let i = stage_index(stages, node, visit);
    if i >= 0 {
        Some(stages[i].1)
    } else {
        None
    }
}

/// No two entries share a stage id.
pub open spec fn stage_ids_unique(stages: Seq<(StageId, StageProjection)>) -> bool {
    forall|i: int, j: int|
        0 <= i < stages.len() && 0 <= j < stages.len() && i != j ==> !(
        #[trigger] stages[i].0.node_id@ == #[trigger] stages[j].0.node_id@ && stages[i].0.visit
            == stages[j].0.visit)
}

/// The sort key of a stage entry: first event sequence, then stage id.
pub open spec fn entry_lt(a: (StageId, StageProjection), b: (StageId, StageProjection)) -> bool {
    a.1.first_event_seq < b.1.first_event_seq || (a.1.first_event_seq == b.1.first_event_seq && (
    seq_lt(a.0.node_id@, b.0.node_id@) || (a.0.node_id@ == b.0.node_id@ && a.0.visit
        < b.0.visit)))
}

/// The entries are in chronological order (ties broken by stage id).
pub open spec fn chronological(s: Seq<(StageId, StageProjection)>) -> bool {
    forall|i: int| 0 <= i < s.len() - 1 ==> !entry_lt(#[trigger] s[i + 1], s[i])
}

/// `perm` lists each index below `n` exactly once.
pub open spec fn is_permutation(perm: Seq<int>, n: nat) -> bool {
    &&& perm.len() == n
    &&& forall|i: int| 0 <= i < n ==> 0 <= #[trigger] perm[i] < n
    &&& forall|i: int, j: int| 0 <= i < n && 0 <= j < n && i != j ==> #[trigger] perm[i] != #[trigger] perm[j]
}

pub proof fn lemma_seq_lt_irreflexive(a: Seq<char>)
    ensures
        !seq_lt(a, a),
    decreases a.len(),
{
    if a.len() > 0 {
        lemma_seq_lt_irreflexive(a.drop_first());
    }
}

/// Two different sequences are ordered one way or the other.
pub proof fn lemma_seq_lt_total(a: Seq<char>, b: Seq<char>)
    ensures
        a != b ==> (seq_lt(a, b) || seq_lt(b, a)),
        !(seq_lt(a, b) && seq_lt(b, a)),
    decreases a.len(),
{
    if a.len() > 0 && b.len() > 0 && a[0] == b[0] {
        lemma_seq_lt_total(a.drop_first(), b.drop_first());
        if a != b {
            if a.drop_first() == b.drop_first() {
                assert(a =~= seq![a[0]] + a.drop_first());
                assert(b =~= seq![b[0]] + b.drop_first());
            }
        }
    } else if a.len() == 0 && b.len() == 0 {
        assert(a =~= b);
    }
}

/// The lexicographic order is transitive.
pub proof fn lemma_seq_lt_transitive(a: Seq<char>, b: Seq<char>, c: Seq<char>)
    requires
        seq_lt(a, b),
        seq_lt(b, c),
    ensures
        seq_lt(a, c),
    decreases a.len(),
{
    if a.len() > 0 && b.len() > 0 && c.len() > 0 && a[0] == b[0] && b[0] == c[0] {
        lemma_seq_lt_transitive(a.drop_first(), b.drop_first(), c.drop_first());
    }
}

/// `entry_lt` is a strict total order on entries with distinct stage ids.
pub proof fn lemma_entry_lt_total(a: (StageId, StageProjection), b: (StageId, StageProjection))
    ensures
        !(entry_lt(a, b) && entry_lt(b, a)),
        !(a.0.node_id@ == b.0.node_id@ && a.0.visit == b.0.visit) ==> (entry_lt(a, b)
            || entry_lt(b, a)),
{
    lemma_seq_lt_total(a.0.node_id@, b.0.node_id@);
    lemma_seq_lt_irreflexive(a.0.node_id@);
}

fn entry_less(a: &(StageId, StageProjection), b: &(StageId, StageProjection)) -> (r: bool)
    ensures
        r == entry_lt(*a, *b),
{
    if a.1.first_event_seq < b.1.first_event_seq {
        true
    } else if a.1.first_event_seq == b.1.first_event_seq {
        if str_lt(a.0.node_id.as_str(), b.0.node_id.as_str()) {
            true
        } else if str_eq(a.0.node_id.as_str(), b.0.node_id.as_str()) {
            a.0.visit < b.0.visit
        } else {
            false
        }
    } else {
        false
    }
}

/// A projection before any event: nothing recorded.
pub open spec fn is_fresh(p: RunProjection) -> bool {
    &&& p.graph_source is None
    &&& p.start is None
    &&& p.status is None
    &&& p.status_updated_at is None
    &&& p.last_event_at is None
    &&& p.pending_control is None
    &&& p.final_patch is None
    &&& p.diff_summary is None
    &&& p.superseded_by is None
    &&& p.checkpoint is None
    &&& p.checkpoints@.len() == 0
    &&& p.conclusion is None
    &&& p.retro_prompt is None
    &&& p.retro_response is None
    &&& p.sandbox is None
    &&& p.pull_request is None
    &&& p.pending_interviews@.len() == 0
    &&& p.stages@.len() == 0
}

impl RunProjection {
    /// An empty projection.
    pub fn new() -> (p: RunProjection)
        ensures
            is_fresh(p),
            p.wf(),
    {
        RunProjection {
            graph_source: None,
            start: None,
            status: None,
            status_updated_at: None,
            last_event_at: None,
            pending_control: None,
            final_patch: None,
            diff_summary: None,
            superseded_by: None,
            checkpoint: None,
            checkpoints: Vec::new(),
            conclusion: None,
            retro_prompt: None,
            retro_response: None,
            sandbox: None,
            pull_request: None,
            pending_interviews: Vec::new(),
            stages: Vec::new(),
        }
    }

    /// Well-formedness: stage ids are unique and every first event sequence
    /// is a real (non-zero) sequence number.
    pub open spec fn wf(self) -> bool {
        &&& stage_ids_unique(self.stages@)
        &&& forall|i: int| 0 <= i < self.stages@.len() ==> (#[trigger] self.stages@[i]).1.first_event_seq != 0
    }

    /// The stage projection of `(node, visit)`, if any.
    pub open spec fn stage_of(self, node: Seq<char>, visit: u32) -> Option<StageProjection> {
        stage_in(self.stages@, node, visit)
    }

    fn find_stage(&self, node_id: &str, visit: u32) -> (r: Option<usize>)
        ensures
            r is None ==> stage_index(self.stages@, node_id@, visit) == -1,
            r matches Some(i) ==> i == stage_index(self.stages@, node_id@, visit) && i
                < self.stages@.len(),
    {
        proof {
            lemma_stage_index(self.stages@, node_id@, visit);
        }
        let mut i = self.stages.len();
        assert(self.stages@.take(i as int) =~= self.stages@);
        while i > 0
            invariant
                i <= self.stages@.len(),
                stage_index(self.stages@, node_id@, visit) == stage_index(
                    self.stages@.take(i as int),
                    node_id@,
                    visit,
                ),
            decreases i,
        {
            let e = &self.stages[i - 1];
            proof {
                let t = self.stages@.take(i as int);
                assert(t.last() == self.stages@[i - 1]);
                assert(t.drop_last() =~= self.stages@.take(i - 1));
            }
            if e.0.visit == visit && str_eq(e.0.node_id.as_str(), node_id) {
                return Some(i - 1);
            }
            i = i - 1;
        }
        assert(self.stages@.take(self.stages@.len() as int) =~= self.stages@);
        None
    }

    pub fn stage(&self, stage: &StageId) -> (r: Option<&StageProjection>)
        ensures
            r matches Some(s) ==> self.stage_of(stage.node_id@, stage.visit) == Some(*s),
            r is None ==> self.stage_of(stage.node_id@, stage.visit) is None,
    {
        match self.find_stage(stage.node_id.as_str(), stage.visit) {
            Some(i) => Some(&self.stages[i].1),
            None => None,
        }
    }

    pub fn is_empty(&self) -> (b: bool)
        ensures
            b == (self.stages@.len() == 0),
    {
        self.stages.len() == 0
    }

    pub fn status(&self) -> (s: Option<RunStatus>)
        ensures
            s == self.status,
    {
        self.status
    }

    pub fn is_terminal(&self) -> (b: bool)
        ensures
            b == (self.status matches Some(s) && s.terminal()),
    {
        match self.status {
            Some(s) => s.is_terminal(),
            None => false,
        }
    }

    pub fn pending_interviews(&self) -> (r: &Vec<PendingInterviewRecord>)
        ensures
            r@ == self.pending_interviews@,
    {
        &self.pending_interviews
    }

    /// The entry of `(node_id, visit)`, created with `first_event_seq` when
    /// missing; returns its index. An existing entry keeps its first event
    /// sequence and everything else.
    pub fn stage_entry(&mut self, node_id: &str, visit: u32, first_event_seq: u32) -> (i: usize)
        requires
            old(self).wf(),
            first_event_seq != 0,
        ensures
            final(self).wf(),
            i < final(self).stages@.len(),
            final(self).stages@[i as int].0.node_id@ == node_id@,
            final(self).stages@[i as int].0.visit == visit,
            i == stage_index(final(self).stages@, node_id@, visit),
            old(self).stage_of(node_id@, visit) matches Some(s) ==> final(self).stages@ == old(self).stages@,
            old(self).stage_of(node_id@, visit) is None ==> final(self).stages@ == old(self).stages@.push(
                (final(self).stages@[i as int].0, fresh_stage(first_event_seq)),
            ),
            final(self).status == old(self).status,
            final(self).status_updated_at == old(self).status_updated_at,
            final(self).last_event_at == old(self).last_event_at,
            final(self).pending_control == old(self).pending_control,
            final(self).pending_interviews == old(self).pending_interviews,
            final(self).final_patch == old(self).final_patch,
            final(self).diff_summary == old(self).diff_summary,
            final(self).superseded_by == old(self).superseded_by,
            final(self).start == old(self).start,
            final(self).graph_source == old(self).graph_source,
            same_records(*old(self), *final(self)),
    {
        proof {
            lemma_stage_index(self.stages@, node_id@, visit);
        }
        match self.find_stage(node_id, visit) {
            Some(i) => i,
            None => {
                let ghost before = self.stages@;
                let id = StageId::new(node_id, visit);
                self.stages.push((id, StageProjection::new(first_event_seq)));
                let i = self.stages.len() - 1;
                proof {
                    assert(self.stages@.drop_last() =~= before);
                    assert forall|a: int, b: int|
                        0 <= a < self.stages@.len() && 0 <= b < self.stages@.len() && a != b
                            implies !(#[trigger] self.stages@[a].0.node_id@
                        == #[trigger] self.stages@[b].0.node_id@ && self.stages@[a].0.visit
                        == self.stages@[b].0.visit) by {
                        if a < before.len() && b < before.len() {
                            assert(self.stages@[a] == before[a]);
                            assert(self.stages@[b] == before[b]);
                        } else if a < before.len() {
                            assert(self.stages@[a] == before[a]);
                        } else {
                            assert(self.stages@[b] == before[b]);
                        }
                    }
                    assert forall|k: int| 0 <= k < self.stages@.len() implies (
                    #[trigger] self.stages@[k]).1.first_event_seq != 0 by {
                        if k < before.len() {
                            assert(self.stages@[k] == before[k]);
                        }
                    }
                }
                i
            },
        }
    }

    /// The highest visit recorded for a node.
    pub fn current_visit_for(&self, node_id: &str) -> (r: Option<u32>)
        ensures
            r is None ==> forall|v: u32| self.stage_of(node_id@, v) is None,
            r matches Some(m) ==> self.stage_of(node_id@, m) is Some && forall|v: u32|
                #[trigger] self.stage_of(node_id@, v) is Some ==> v <= m,
    {
        let mut best: Option<u32> = None;
        let mut i: usize = 0;
        while i < self.stages.len()
            invariant
                i <= self.stages@.len(),
                best is None ==> forall|k: int|
                    0 <= k < i ==> (#[trigger] self.stages@[k]).0.node_id@ != node_id@,
                best matches Some(m) ==> (exists|k: int|
                    0 <= k < i && (#[trigger] self.stages@[k]).0.node_id@ == node_id@
                        && self.stages@[k].0.visit == m) && forall|k: int|
                    0 <= k < i && (#[trigger] self.stages@[k]).0.node_id@ == node_id@
                        ==> self.stages@[k].0.visit <= m,
            decreases self.stages.len() - i,
        {
            let e = &self.stages[i];
            if str_eq(e.0.node_id.as_str(), node_id) {
                match best {
                    Some(m) => {
                        if e.0.visit > m {
                            best = Some(e.0.visit);
                        }
                    },
                    None => {
                        best = Some(e.0.visit);
                    },
                }
            }
            i = i + 1;
        }
        proof {
            lemma_stage_index_all(self.stages@, node_id@);
        }
        best
    }

    /// The visits recorded for a node, ascending and without repeats.
    pub fn list_node_visits(&self, node_id: &str) -> (r: Vec<u32>)
        ensures
            forall|i: int, j: int| 0 <= i < j < r@.len() ==> r@[i] < r@[j],
            forall|v: u32| r@.contains(v) <==> self.stage_of(node_id@, v) is Some,
    {
        let mut out: Vec<u32> = Vec::new();
        let mut i: usize = 0;
        while i < self.stages.len()
            invariant
                i <= self.stages@.len(),
                forall|a: int, b: int| 0 <= a < b < out@.len() ==> out@[a] < out@[b],
                forall|v: u32|
                    out@.contains(v) <==> exists|k: int|
                        0 <= k < i && (#[trigger] self.stages@[k]).0.node_id@ == node_id@
                            && self.stages@[k].0.visit == v,
            decreases self.stages.len() - i,
        {
            let e = &self.stages[i];
            if str_eq(e.0.node_id.as_str(), node_id) {
                let v = e.0.visit;
                let ghost before = out@;
                insert_sorted_unique(&mut out, v);
                proof {
                    assert forall|w: u32|
                        out@.contains(w) <==> exists|k: int|
                            0 <= k < i + 1 && (#[trigger] self.stages@[k]).0.node_id@ == node_id@
                                && self.stages@[k].0.visit == w by {
                        if out@.contains(w) && w != v {
                            assert(before.contains(w));
                        }
                        if w == v {
                            assert(self.stages@[i as int].0.node_id@ == node_id@);
                        }
                    }
                }
            } else {
                proof {
                    assert forall|w: u32|
                        out@.contains(w) <==> exists|k: int|
                            0 <= k < i + 1 && (#[trigger] self.stages@[k]).0.node_id@ == node_id@
                                && self.stages@[k].0.visit == w by {
                        if exists|k: int|
                            0 <= k < i + 1 && (#[trigger] self.stages@[k]).0.node_id@ == node_id@
                                && self.stages@[k].0.visit == w {
                            let k = choose|k: int|
                                0 <= k < i + 1 && (#[trigger] self.stages@[k]).0.node_id@
                                    == node_id@ && self.stages@[k].0.visit == w;
                            assert(k != i);
                        }
                    }
                }
            }
            i = i + 1;
        }
        proof {
            assert forall|v: u32| out@.contains(v) <==> self.stage_of(node_id@, v) is Some by {
                lemma_stage_index(self.stages@, node_id@, v);
                if self.stage_of(node_id@, v) is Some {
                    let k = stage_index(self.stages@, node_id@, v);
                    assert(self.stages@[k].0.node_id@ == node_id@);
                }
            }
        }
        out
    }

    /// The stage entries in chronological order of their first event, ties
    /// broken by stage id.
    pub fn iter_stages(&self) -> (r: Vec<(StageId, StageProjection)>)
        requires
            self.wf(),
        ensures
            r@.len() == self.stages@.len(),
            chronological(r@),
            exists|perm: Seq<int>|
                is_permutation(perm, self.stages@.len()) && forall|i: int|
                    0 <= i < r@.len() ==> #[trigger] r@[i] == self.stages@[perm[i]],
    {
        let order = self.sorted_order();
        let ghost perm = order@.map_values(|k: usize| k as int);
        let mut out: Vec<(StageId, StageProjection)> = Vec::new();
        let mut i: usize = 0;
        while i < order.len()
            invariant
                i <= order@.len(),
                order@.len() == self.stages@.len(),
                forall|k: int| 0 <= k < order@.len() ==> #[trigger] order@[k] < self.stages@.len(),
                out@.len() == i,
                forall|k: int| 0 <= k < i ==> #[trigger] out@[k] == self.stages@[order@[k] as int],
            decreases order.len() - i,
        {
            let e = &self.stages[order[i]];
            out.push((StageId { node_id: e.0.node_id.clone(), visit: e.0.visit }, e.1.duplicate()));
            i = i + 1;
        }
        proof {
            assert forall|k: int| 0 <= k < out@.len() implies #[trigger] out@[k] == self.stages@[perm[k]] by {
            }
            assert forall|k: int| 0 <= k < out@.len() - 1 implies !entry_lt(#[trigger] out@[k + 1], out@[k]) by {
                assert(out@[k] == self.stages@[order@[k] as int]);
                assert(out@[k + 1] == self.stages@[order@[k + 1] as int]);
            }
        }
        out
    }

    /// Indices of the stage entries in chronological order.
    fn sorted_order(&self) -> (order: Vec<usize>)
        requires
            self.wf(),
        ensures
            order@.len() == self.stages@.len(),
            forall|k: int| 0 <= k < order@.len() ==> #[trigger] order@[k] < self.stages@.len(),
            is_permutation(order@.map_values(|k: usize| k as int), self.stages@.len()),
            forall|k: int|
                0 <= k < order@.len() - 1 ==> !entry_lt(
                    #[trigger] self.stages@[order@[k + 1] as int],
                    self.stages@[order@[k] as int],
                ),
    {
        let n = self.stages.len();
        let mut order: Vec<usize> = Vec::new();
        let mut i: usize = 0;
        while i < n
            invariant
                n == self.stages@.len(),
                self.wf(),
                i <= n,
                order@.len() == i,
                forall|k: int| 0 <= k < order@.len() ==> #[trigger] order@[k] < i,
                forall|a: int, b: int|
                    0 <= a < order@.len() && 0 <= b < order@.len() && a != b ==> #[trigger] order@[a]
                        != #[trigger] order@[b],
                forall|k: int|
                    0 <= k < order@.len() - 1 ==> !entry_lt(
                        #[trigger] self.stages@[order@[k + 1] as int],
                        self.stages@[order@[k] as int],
                    ),
            decreases n - i,
        {
            // find the first position whose entry sorts after entry i
            let mut p: usize = 0;
            while p < order.len() && !entry_less(&self.stages[i], &self.stages[order[p]])
                invariant
                    n == self.stages@.len(),
                    i < n,
                    p <= order@.len(),
                    forall|k: int| 0 <= k < order@.len() ==> #[trigger] order@[k] < i,
                    forall|k: int|
                        0 <= k < p ==> !entry_lt(self.stages@[i as int], #[trigger] self.stages@[order@[k] as int]),
                decreases order@.len() - p,
            {
                p = p + 1;
            }
            let ghost before = order@;
            let ghost exited_early = p < order.len();
            proof {
                if p < before.len() {
                    assert(entry_lt(self.stages@[i as int], self.stages@[before[p as int] as int]));
                }
                if p > 0 {
                    let a = self.stages@[before[p - 1] as int];
                    let b = self.stages@[i as int];
                    lemma_entry_lt_total(a, b);
                    assert(before[p - 1] != i);
                }
            }
            order.insert(p, i);
            proof {
                assert forall|k: int| 0 <= k < order@.len() implies #[trigger] order@[k] < i + 1 by {
                    if k < p {
                        assert(order@[k] == before[k]);
                    } else if k > p {
                        assert(order@[k] == before[k - 1]);
                    }
                }
                assert forall|a: int, b: int|
                    0 <= a < order@.len() && 0 <= b < order@.len() && a != b implies #[trigger] order@[a]
                        != #[trigger] order@[b] by {
                    if a != p && b != p {
                        let a2 = if a < p { a } else { a - 1 };
                        let b2 = if b < p { b } else { b - 1 };
                        assert(order@[a] == before[a2]);
                        assert(order@[b] == before[b2]);
                    } else if a == p {
                        let b2 = if b < p { b } else { b - 1 };
                        assert(order@[b] == before[b2]);
                    } else {
                        let a2 = if a < p { a } else { a - 1 };
                        assert(order@[a] == before[a2]);
                    }
                }
                assert forall|k: int|
                    0 <= k < order@.len() - 1 implies !entry_lt(
                    #[trigger] self.stages@[order@[k + 1] as int],
                    self.stages@[order@[k] as int],
                ) by {
                    if k + 1 < p {
                        assert(order@[k] == before[k]);
                        assert(order@[k + 1] == before[k + 1]);
                        assert(!entry_lt(self.stages@[before[k + 1] as int], self.stages@[before[k] as int]));
                    } else if k + 1 == p {
                        assert(order@[k] == before[k]);
                        assert(order@[k + 1] == i);
                        let a = self.stages@[before[k] as int];
                        let b = self.stages@[i as int];
                        assert(!entry_lt(b, a));
                    } else if k == p {
                        assert(order@[k] == i);
                        assert(order@[k + 1] == before[k]);
                        let a = self.stages@[before[k] as int];
                        let b = self.stages@[i as int];
                        assert(entry_lt(b, a));
                        lemma_entry_lt_total(a, b);
                        assert(!entry_lt(a, b));
                    } else {
                        let j = k - 1;
                        assert(order@[k] == before[j]);
                        assert(order@[k + 1] == before[j + 1]);
                        assert(!entry_lt(self.stages@[before[j + 1] as int], self.stages@[before[j] as int]));
                    }
                }
            }
            i = i + 1;
        }
        proof {
            let perm = order@.map_values(|k: usize| k as int);
            assert forall|a: int, b: int|
                0 <= a < n && 0 <= b < n && a != b implies #[trigger] perm[a] != #[trigger] perm[b] by {
                assert(order@[a] != order@[b]);
            }
        }
        order
    }

    /// Applies a status, recording when it changed: the same status again
    /// is a no-op; a first status is taken as is; otherwise the transition
    /// table decides.
    pub fn try_apply_status(&mut self, new: RunStatus, ts: i64) -> (r: Result<(), InvalidTransition>)
        ensures
            final(self).stages == old(self).stages,
            final(self).last_event_at == old(self).last_event_at,
            final(self).pending_control == old(self).pending_control,
            final(self).pending_interviews == old(self).pending_interviews,
            final(self).final_patch == old(self).final_patch,
            final(self).diff_summary == old(self).diff_summary,
            final(self).superseded_by == old(self).superseded_by,
            final(self).start == old(self).start,
            final(self).graph_source == old(self).graph_source,
            same_records(*old(self), *final(self)),
            status_change_ok(old(self).status, new) ==> r is Ok,
            !status_change_ok(old(self).status, new) ==> r == Err::<(), InvalidTransition>(
                InvalidTransition { from: old(self).status.unwrap(), to: new },
            ),
            r is Ok ==> final(self).status == Some(new),
            r is Ok && old(self).status == Some(new) ==> final(self).status_updated_at == old(self).status_updated_at,
            r is Ok && old(self).status != Some(new) ==> final(self).status_updated_at == Some(ts),
            r is Err ==> final(self).status == old(self).status && final(self).status_updated_at == old(self).status_updated_at,
    {
        match self.status {
            Some(current) => {
                if current == new {
                    Ok(())
                } else {
                    match current.transition_to(new) {
                        Ok(s) => {
                            self.status = Some(s);
                            self.status_updated_at = Some(ts);
                            Ok(())
                        },
                        Err(e) => Err(e),
                    }
                }
            },
            None => {
                self.status = Some(new);
                self.status_updated_at = Some(ts);
                Ok(())
            },
        }
    }
}

/// Whether applying `new` to a projection whose status is `current` is
/// accepted: no status yet, the same status, or an allowed transition.
pub open spec fn status_change_ok(current: Option<RunStatus>, new: RunStatus) -> bool {
    match current {
        None => true,
        Some(c) => c == new || c.allows(new),
    }
}

proof fn lemma_stage_index_all(stages: Seq<(StageId, StageProjection)>, node: Seq<char>)
    ensures
        forall|v: u32|
            #![trigger stage_index(stages, node, v)]
            (stage_index(stages, node, v) >= 0) <==> exists|k: int|
                0 <= k < stages.len() && stages[k].0.node_id@ == node && stages[k].0.visit == v,
{
    assert forall|v: u32|
        #![trigger stage_index(stages, node, v)]
        (stage_index(stages, node, v) >= 0) <==> exists|k: int|
            0 <= k < stages.len() && stages[k].0.node_id@ == node && stages[k].0.visit == v by {
        lemma_stage_index(stages, node, v);
        if exists|k: int|
            0 <= k < stages.len() && stages[k].0.node_id@ == node && stages[k].0.visit == v {
            let k = choose|k: int|
                0 <= k < stages.len() && stages[k].0.node_id@ == node && stages[k].0.visit == v;
            assert(stages[k].0.node_id@ == node);
        }
    }
}

/// Inserts `v` into a strictly ascending vector unless it is there already.
fn insert_sorted_unique(out: &mut Vec<u32>, v: u32)
    requires
        forall|a: int, b: int| 0 <= a < b < old(out)@.len() ==> old(out)@[a] < old(out)@[b],
    ensures
        forall|a: int, b: int| 0 <= a < b < final(out)@.len() ==> final(out)@[a] < final(out)@[b],
        forall|w: u32| final(out)@.contains(w) <==> (old(out)@.contains(w) || w == v),
{
    let mut p: usize = 0;
    while p < out.len() && out[p] < v
        invariant
            out@ == old(out)@,
            p <= out@.len(),
            forall|k: int| 0 <= k < p ==> out@[k] < v,
        decreases out@.len() - p,
    {
        p = p + 1;
    }
    if p < out.len() && out[p] == v {
        assert(out@[p as int] == v);
        return;
    }
    let ghost before = out@;
    out.insert(p, v);
    proof {
        assert forall|a: int, b: int| 0 <= a < b < out@.len() implies out@[a] < out@[b] by {
            if b < p {
                assert(out@[a] == before[a]);
                assert(out@[b] == before[b]);
            } else if b == p {
                assert(out@[a] == before[a]);
            } else if a < p {
                assert(out@[a] == before[a]);
                assert(out@[b] == before[b - 1]);
                assert(before[p as int] > v);
            } else if a == p {
                assert(out@[b] == before[b - 1]);
                assert(before[p as int] > v);
            } else {
                assert(out@[a] == before[a - 1]);
                assert(out@[b] == before[b - 1]);
            }
        }
        assert forall|w: u32| #[trigger] out@.contains(w) <==> (before.contains(w) || w == v) by {
            if out@.contains(w) {
                let k = choose|k: int| 0 <= k < out@.len() && out@[k] == w;
                if k < p {
                    assert(before[k] == w);
                } else if k > p {
                    assert(before[k - 1] == w);
                }
            }
            if w == v {
                assert(out@[p as int] == v);
            } else if before.contains(w) {
                let k = choose|k: int| 0 <= k < before.len() && before[k] == w;
                if k < p {
                    assert(out@[k] == w);
                } else {
                    assert(out@[k + 1] == w);
                }
            }
        }
    }
}

/// A copy of a list of options with the same contents.
pub fn clone_options(options: &Vec<InterviewOption>) -> (r: Vec<InterviewOption>)
    ensures
        r@ == options@,
{
    let mut r: Vec<InterviewOption> = Vec::new();
    let mut i: usize = 0;
    while i < options.len()
        invariant
            i <= options@.len(),
            r@ == options@.take(i as int),
        decreases options.len() - i,
    {
        r.push(options[i].duplicate());
        assert(r@ =~= options@.take(i + 1));
        i = i + 1;
    }
    assert(options@.take(options@.len() as int) =~= options@);
    r
}

/// A copy of a list of strings.
pub fn clone_strings(v: &Vec<String>) -> (r: Vec<String>)
    ensures
        r@ == v@,
{
    let mut r: Vec<String> = Vec::new();
    let mut i: usize = 0;
    while i < v.len()
        invariant
            i <= v@.len(),
            r@ == v@.take(i as int),
        decreases v.len() - i,
    {
        r.push(v[i].clone());
        assert(r@ =~= v@.take(i + 1));
        i = i + 1;
    }
    assert(v@.take(v@.len() as int) =~= v@);
    r
}

impl NodeOutcome {
    pub fn duplicate(&self) -> (r: NodeOutcome)
        ensures
            r == *self,
    {
        NodeOutcome {
            status: self.status,
            notes: clone_opt_string(&self.notes),
            failure_message: clone_opt_string(&self.failure_message),
        }
    }
}

/// A copy of a list of node outcomes.
pub fn clone_node_outcomes(v: &Vec<(String, NodeOutcome)>) -> (r: Vec<(String, NodeOutcome)>)
    ensures
        r@ == v@,
{
    let mut r: Vec<(String, NodeOutcome)> = Vec::new();
    let mut i: usize = 0;
    while i < v.len()
        invariant
            i <= v@.len(),
            r@ == v@.take(i as int),
        decreases v.len() - i,
    {
        r.push((v[i].0.clone(), v[i].1.duplicate()));
        assert(r@ =~= v@.take(i + 1));
        i = i + 1;
    }
    assert(v@.take(v@.len() as int) =~= v@);
    r
}

/// A copy of a list of node visit counts.
pub fn clone_node_visits(v: &Vec<(String, u64)>) -> (r: Vec<(String, u64)>)
    ensures
        r@ == v@,
{
    let mut r: Vec<(String, u64)> = Vec::new();
    let mut i: usize = 0;
    while i < v.len()
        invariant
            i <= v@.len(),
            r@ == v@.take(i as int),
        decreases v.len() - i,
    {
        r.push((v[i].0.clone(), v[i].1));
        assert(r@ =~= v@.take(i + 1));
        i = i + 1;
    }
    assert(v@.take(v@.len() as int) =~= v@);
    r
}

impl Checkpoint {
    pub fn duplicate(&self) -> (r: Checkpoint)
        ensures
            r@ == self@,
    {
        Checkpoint {
            timestamp: self.timestamp,
            current_node: self.current_node.clone(),
            completed_nodes: clone_strings(&self.completed_nodes),
            next_node_id: clone_opt_string(&self.next_node_id),
            git_commit_sha: clone_opt_string(&self.git_commit_sha),
            node_outcomes: clone_node_outcomes(&self.node_outcomes),
            node_visits: clone_node_visits(&self.node_visits),
        }
    }
}

impl Conclusion {
    pub fn duplicate(&self) -> (r: Conclusion)
        ensures
            r == *self,
    {
        Conclusion {
            timestamp: self.timestamp,
            status: self.status,
            duration_ms: self.duration_ms,
            failure_reason: clone_opt_string(&self.failure_reason),
            final_git_commit_sha: clone_opt_string(&self.final_git_commit_sha),
        }
    }
}

impl SandboxRecord {
    pub fn duplicate(&self) -> (r: SandboxRecord)
        ensures
            r == *self,
    {
        SandboxRecord {
            provider: self.provider.clone(),
            working_directory: self.working_directory.clone(),
            identifier: clone_opt_string(&self.identifier),
            repo_cloned: self.repo_cloned,
            clone_origin_url: clone_opt_string(&self.clone_origin_url),
            clone_branch: clone_opt_string(&self.clone_branch),
        }
    }
}

impl PullRequestRecord {
    pub fn duplicate(&self) -> (r: PullRequestRecord)
        ensures
            r == *self,
    {
        PullRequestRecord {
            html_url: self.html_url.clone(),
            number: self.number,
            owner: self.owner.clone(),
            repo: self.repo.clone(),
            base_branch: self.base_branch.clone(),
            head_branch: self.head_branch.clone(),
            title: self.title.clone(),
        }
    }
}

impl PendingInterviewRecord {
    pub fn duplicate(&self) -> (r: PendingInterviewRecord)
        ensures
            r@ == self@,
    {
        PendingInterviewRecord {
            question_id: self.question_id.clone(),
            text: self.text.clone(),
            stage: self.stage.clone(),
            question_type: self.question_type.clone(),
            options: clone_options(&self.options),
            allow_freeform: self.allow_freeform,
            timeout_seconds: self.timeout_seconds,
            context_display: clone_opt_string(&self.context_display),
            started_at: self.started_at,
        }
    }
}

impl StartRecord {
    pub fn duplicate(&self) -> (r: StartRecord)
        ensures
            r == *self,
    {
        StartRecord {
            run_id: self.run_id,
            start_time: self.start_time,
            run_branch: clone_opt_string(&self.run_branch),
            base_sha: clone_opt_string(&self.base_sha),
        }
    }
}

impl RunProjection {
    /// A copy with the same contents.
    pub fn duplicate(&self) -> (r: RunProjection)
        ensures
            r.graph_source == self.graph_source,
            r.start == self.start,
            r.status == self.status,
            r.status_updated_at == self.status_updated_at,
            r.last_event_at == self.last_event_at,
            r.pending_control == self.pending_control,
            r.final_patch == self.final_patch,
            r.diff_summary == self.diff_summary,
            r.superseded_by == self.superseded_by,
            same_records(r, *self),
            interview_views(r.pending_interviews@) == interview_views(self.pending_interviews@),
            r.pending_interviews@.len() == self.pending_interviews@.len(),
            forall|k: int|
                0 <= k < r.pending_interviews@.len() ==> (#[trigger] r.pending_interviews@[k])@
                    == self.pending_interviews@[k]@,
            r.stages@ == self.stages@,
    {
        let mut interviews: Vec<PendingInterviewRecord> = Vec::new();
        let mut i: usize = 0;
        while i < self.pending_interviews.len()
            invariant
                i <= self.pending_interviews@.len(),
                interviews@.len() == i,
                forall|k: int| 0 <= k < i ==> (#[trigger] interviews@[k])@ == self.pending_interviews@[k]@,
            decreases self.pending_interviews.len() - i,
        {
            interviews.push(self.pending_interviews[i].duplicate());
            i = i + 1;
        }
        assert(interview_views(interviews@) =~= interview_views(self.pending_interviews@));
        let mut stages: Vec<(StageId, StageProjection)> = Vec::new();
        let mut j: usize = 0;
        while j < self.stages.len()
            invariant
                j <= self.stages@.len(),
                stages@ == self.stages@.take(j as int),
            decreases self.stages.len() - j,
        {
            let e = &self.stages[j];
            stages.push((StageId { node_id: e.0.node_id.clone(), visit: e.0.visit }, e.1.duplicate()));
            j = j + 1;
            assert(stages@ =~= self.stages@.take(j as int));
        }
        assert(stages@ =~= self.stages@);
        let mut checkpoints: Vec<(u32, Checkpoint)> = Vec::new();
        let mut c: usize = 0;
        while c < self.checkpoints.len()
            invariant
                c <= self.checkpoints@.len(),
                checkpoints@.len() == c,
                checkpoints_view(checkpoints@) == checkpoints_view(self.checkpoints@.take(c as int)),
            decreases self.checkpoints.len() - c,
        {
            let ghost prev = checkpoints@;
            let entry = &self.checkpoints[c];
            checkpoints.push((entry.0, entry.1.duplicate()));
            proof {
                let want = checkpoints_view(self.checkpoints@.take(c + 1));
                assert forall|k: int| 0 <= k < c + 1 implies #[trigger] checkpoints_view(checkpoints@)[k] == want[k] by {
                    if k < c {
                        assert(checkpoints@[k] == prev[k]);
                        assert(checkpoints_view(prev)[k] == checkpoints_view(self.checkpoints@.take(c as int))[k]);
                    }
                }
                assert(checkpoints_view(checkpoints@) =~= want);
            }
            c = c + 1;
        }
        assert(self.checkpoints@.take(c as int) =~= self.checkpoints@);
        RunProjection {
            graph_source: clone_opt_string(&self.graph_source),
            start: match &self.start {
                Some(s) => Some(s.duplicate()),
                None => None,
            },
            status: self.status,
            status_updated_at: self.status_updated_at,
            last_event_at: self.last_event_at,
            pending_control: self.pending_control,
            final_patch: clone_opt_string(&self.final_patch),
            diff_summary: self.diff_summary,
            superseded_by: self.superseded_by,
            checkpoint: match &self.checkpoint {
                Some(cp) => Some(cp.duplicate()),
                None => None,
            },
            checkpoints,
            conclusion: match &self.conclusion {
                Some(x) => Some(x.duplicate()),
                None => None,
            },
            retro_prompt: clone_opt_string(&self.retro_prompt),
            retro_response: clone_opt_string(&self.retro_response),
            sandbox: match &self.sandbox {
                Some(x) => Some(x.duplicate()),
                None => None,
            },
            pull_request: match &self.pull_request {
                Some(x) => Some(x.duplicate()),
                None => None,
            },
            pending_interviews: interviews,
            stages,
        }
    }
}

} // verus!

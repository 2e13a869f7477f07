//! The payloads of run and agent events. Parts whose structure the server
//! does not read (workflow settings, graphs, provenance, git context,
//! billing counts, output tails) are kept as their JSON text.

use vstd::prelude::*;
use crate::ids::{RunBlobId, RunId};
use crate::projection::DiffSummary;
use crate::status::{BlockedReason, FailureReason, RunControlAction, SuccessReason};

verus! {

#[derive(Debug, Clone, PartialEq, Eq)]
pub struct AgentSessionStartedProps {
    pub provider: Option<String>,
    pub model: Option<String>,
}

#[derive(Debug, Clone, Copy, PartialEq, Eq, Default)]
pub struct AgentSessionEndedProps {}

/// What an agent session lets the server do with it.
#[derive(Debug, Clone, Copy, PartialEq, Eq, Structural)]
pub enum SessionCapability {
    Steer,
}

#[derive(Debug, Clone, PartialEq, Eq)]
pub struct AgentSessionActivatedProps {
    pub thread_id: Option<String>,
    pub provider: Option<String>,
    pub model: Option<String>,
    pub capabilities: Vec<SessionCapability>,
    pub visit: u32,
}

impl AgentSessionActivatedProps {
    /// Whether the session can be steered.
    pub fn steerable(&self) -> (b: bool)
        ensures
            b == self.capabilities@.contains(SessionCapability::Steer),
    {
        let mut i: usize = 0;
        while i < self.capabilities.len()
            invariant
                i <= self.capabilities@.len(),
                forall|j: int| 0 <= j < i ==> self.capabilities@[j] != SessionCapability::Steer,
            decreases self.capabilities.len() - i,
        {
            if self.capabilities[i] == SessionCapability::Steer {
                return true;
            }
            i = i + 1;
        }
        false
    }
}

#[derive(Debug, Clone, Copy, PartialEq, Eq)]
pub struct AgentSessionDeactivatedProps {
    pub visit: u32,
}

#[derive(Debug, Clone, Copy, PartialEq, Eq)]
pub struct AgentProcessingEndProps {
    pub visit: u32,
}

#[derive(Debug, Clone, PartialEq, Eq)]
pub struct AgentInputProps {
    pub text: String,
    pub visit: u32,
}

/// An assistant message: its text, the model, the billed token counts (as
/// JSON text), and how many tool calls it made.
#[derive(Debug, Clone, PartialEq, Eq)]
pub struct AgentMessageProps {
    pub text: String,
    pub model: String,
    pub billing: String,
    pub tool_call_count: usize,
    pub visit: u32,
}

#[derive(Debug, Clone, Copy, PartialEq, Eq)]
pub struct AgentLoopDetectedProps {
    pub visit: u32,
}

#[derive(Debug, Clone, Copy, PartialEq, Eq)]
pub struct AgentTurnLimitReachedProps {
    pub max_turns: usize,
    pub visit: u32,
}

#[derive(Debug, Clone, PartialEq, Eq)]
pub struct AgentSteeringInjectedProps {
    pub text: String,
    pub visit: u32,
}

#[derive(Debug, Clone, PartialEq, Eq)]
pub struct AgentPairUserMessageProps {
    pub pair_id: String,
    pub message_id: String,
    pub client_message_id: Option<String>,
    pub text: String,
    pub visit: u32,
}

#[derive(Debug, Clone, PartialEq, Eq)]
pub struct AgentPairSystemMessageProps {
    pub pair_id: String,
    pub kind: String,
    pub text: String,
    pub visit: u32,
}

#[derive(Debug, Clone, Copy, PartialEq, Eq)]
pub struct AgentInterruptInjectedProps {
    pub visit: u32,
}

#[derive(Debug, Clone, Copy, PartialEq, Eq, Default)]
pub struct AgentSteerBufferedProps {}

/// Why buffered steering text was dropped.
#[derive(Debug, Clone, Copy, PartialEq, Eq, Structural)]
pub enum AgentSteerDroppedReason {
    QueueFull,
    RunEnded,
}

#[derive(Debug, Clone, Copy, PartialEq, Eq)]
pub struct AgentSteerDroppedProps {
    pub reason: AgentSteerDroppedReason,
    pub count: u32,
}

#[derive(Debug, Clone, Copy, PartialEq, Eq)]
pub struct AgentCompactionStartedProps {
    pub estimated_tokens: usize,
    pub context_window_size: usize,
    pub visit: u32,
}

#[derive(Debug, Clone, Copy, PartialEq, Eq)]
pub struct AgentCompactionCompletedProps {
    pub original_turn_count: usize,
    pub preserved_turn_count: usize,
    pub summary_token_estimate: usize,
    pub tracked_file_count: usize,
    pub visit: u32,
}

#[derive(Debug, Clone, PartialEq, Eq)]
pub struct AgentSubSpawnedProps {
    pub agent_id: String,
    pub depth: usize,
    pub task: String,
    pub visit: u32,
}

#[derive(Debug, Clone, PartialEq, Eq)]
pub struct AgentSubCompletedProps {
    pub agent_id: String,
    pub depth: usize,
    pub success: bool,
    pub turns_used: usize,
    pub visit: u32,
}

#[derive(Debug, Clone, PartialEq, Eq)]
pub struct AgentSubClosedProps {
    pub agent_id: String,
    pub depth: usize,
    pub visit: u32,
}

#[derive(Debug, Clone, PartialEq, Eq)]
pub struct AgentMcpReadyProps {
    pub server_name: String,
    pub tool_count: usize,
    pub visit: u32,
}

#[derive(Debug, Clone, PartialEq, Eq)]
pub struct AgentMcpFailedProps {
    pub server_name: String,
    pub error: String,
    pub visit: u32,
}

/// A run's creation: its settings and graph (as JSON text), the workflow
/// source and configuration, labels, directories and origin.
#[derive(Debug, Clone, PartialEq, Eq)]
pub struct RunCreatedProps {
    pub settings: String,
    pub graph: String,
    pub workflow_source: Option<String>,
    pub workflow_config: Option<String>,
    pub labels: Vec<(String, String)>,
    pub run_dir: String,
    pub source_directory: Option<String>,
    pub workflow_slug: Option<String>,
    pub db_prefix: Option<String>,
    pub provenance: Option<String>,
    pub manifest_blob: Option<RunBlobId>,
    pub git: Option<String>,
    pub fork_source_ref: Option<String>,
    pub in_place: bool,
    pub web_url: Option<String>,
}

#[derive(Debug, Clone, PartialEq, Eq)]
pub struct RunStartedProps {
    pub name: String,
    pub base_branch: Option<String>,
    pub base_sha: Option<String>,
    pub run_branch: Option<String>,
    pub worktree_dir: Option<String>,
    pub goal: Option<String>,
}

#[derive(Debug, Clone, Copy, PartialEq, Eq, Default)]
pub struct RunStatusTransitionProps {}

#[derive(Debug, Clone, Copy, PartialEq, Eq, Default)]
pub struct RunStatusEffectProps {}

#[derive(Debug, Clone, Copy, PartialEq, Eq, Default)]
pub struct RunInterruptProps {}

#[derive(Debug, Clone, PartialEq, Eq)]
pub struct RunSteerProps {
    pub text: String,
}

#[derive(Debug, Clone, Copy, PartialEq, Eq)]
pub struct RunSubmittedProps {
    pub definition_blob: Option<RunBlobId>,
}

#[derive(Debug, Clone, Copy, PartialEq, Eq)]
pub struct RunControlRequestedProps {
    pub action: RunControlAction,
}

#[derive(Debug, Clone, Copy, PartialEq, Eq)]
pub struct RunBlockedProps {
    pub blocked_reason: BlockedReason,
}

#[derive(Debug, Clone, Copy, PartialEq, Eq, Default)]
pub struct RunControlEffectProps {}

#[derive(Debug, Clone, PartialEq, Eq)]
pub struct RunSupersededByProps {
    pub new_run_id: RunId,
    pub target_checkpoint_ordinal: usize,
    pub target_node_id: String,
    pub target_visit: usize,
}

#[derive(Debug, Clone, Copy, PartialEq, Eq, Default)]
pub struct RunArchivedProps {}

#[derive(Debug, Clone, Copy, PartialEq, Eq, Default)]
pub struct RunUnarchivedProps {}

/// A run's successful end; `billing` is the billed token counts as JSON
/// text.
#[derive(Debug, Clone, PartialEq, Eq)]
pub struct RunCompletedProps {
    pub duration_ms: u64,
    pub artifact_count: usize,
    pub status: String,
    pub reason: SuccessReason,
    pub total_usd_micros: Option<i64>,
    pub final_git_commit_sha: Option<String>,
    pub final_patch: Option<String>,
    pub diff_summary: Option<DiffSummary>,
    pub billing: Option<String>,
}

#[derive(Debug, Clone, PartialEq, Eq)]
pub struct RunFailedProps {
    pub error: String,
    pub causes: Vec<String>,
    pub duration_ms: u64,
    pub reason: FailureReason,
    pub git_commit_sha: Option<String>,
    pub final_patch: Option<String>,
    pub diff_summary: Option<DiffSummary>,
}

/// A notice about a run: its level and code, the message, and the tail of
/// a command's output (as JSON text) when there is one.
#[derive(Debug, Clone, PartialEq, Eq)]
pub struct RunNoticeProps {
    pub level: String,
    pub code: String,
    pub message: String,
    pub exec_output_tail: Option<String>,
}

} // verus!

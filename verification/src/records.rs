//! Plain records the server reports about runs: diff statistics, the
//! repository a run works on, the state of its sandbox, the parts of its
//! summary, and the router's options.

use vstd::prelude::*;

verus! {

/// Lines added and deleted by a change.
#[derive(Debug, Clone, Copy, PartialEq, Eq, Structural, Default)]
pub struct DiffStats {
    pub additions: i64,
    pub deletions: i64,
}

/// Where a repository is hosted.
#[derive(Debug, Clone, Copy, PartialEq, Eq, Structural)]
pub enum RepositoryProvider {
    Github,
    Git,
    Unknown,
}

/// The repository a run works on.
#[derive(Debug, Clone, PartialEq, Eq)]
pub struct RepositoryRef {
    pub name: String,
    pub origin_url: Option<String>,
    pub provider: RepositoryProvider,
}

/// The life-cycle state of a run's sandbox, as its provider reports it.
#[derive(Debug, Clone, Copy, PartialEq, Eq, Structural)]
pub enum SandboxState {
    Unknown,
    Provisioning,
    Starting,
    Running,
    Stopping,
    Stopped,
    Paused,
    Deleting,
    Deleted,
    Archived,
    Restoring,
    Resizing,
    Error,
}

impl SandboxState {
    /// The snake_case name of the state.
    pub open spec fn name(self) -> Seq<char> {
        match self {
            SandboxState::Unknown => "unknown"@,
            SandboxState::Provisioning => "provisioning"@,
            SandboxState::Starting => "starting"@,
            SandboxState::Running => "running"@,
            SandboxState::Stopping => "stopping"@,
            SandboxState::Stopped => "stopped"@,
            SandboxState::Paused => "paused"@,
            SandboxState::Deleting => "deleting"@,
            SandboxState::Deleted => "deleted"@,
            SandboxState::Archived => "archived"@,
            SandboxState::Restoring => "restoring"@,
            SandboxState::Resizing => "resizing"@,
            SandboxState::Error => "error"@,
        }
    }

    pub fn as_str(self) -> (s: &'static str)
        ensures
            s@ == self.name(),
    {
        match self {
            SandboxState::Unknown => "unknown",
            SandboxState::Provisioning => "provisioning",
            SandboxState::Starting => "starting",
            SandboxState::Running => "running",
            SandboxState::Stopping => "stopping",
            SandboxState::Stopped => "stopped",
            SandboxState::Paused => "paused",
            SandboxState::Deleting => "deleting",
            SandboxState::Deleted => "deleted",
            SandboxState::Archived => "archived",
            SandboxState::Restoring => "restoring",
            SandboxState::Resizing => "resizing",
            SandboxState::Error => "error",
        }
    }
}

/// The workflow a run executes.
#[derive(Debug, Clone, PartialEq, Eq)]
pub struct WorkflowRef {
    pub slug: Option<String>,
    pub name: String,
}

/// The automation that started a run.
#[derive(Debug, Clone, PartialEq, Eq)]
pub struct AutomationRef {
    pub id: String,
    pub name: Option<String>,
}

/// How a run came to be.
#[derive(Debug, Clone, Copy, PartialEq, Eq, Structural)]
pub enum RunOriginKind {
    Api,
}

#[derive(Debug, Clone, Copy, PartialEq, Eq, Structural)]
pub struct RunOrigin {
    pub kind: RunOriginKind,
}

impl Default for RunOrigin {
    fn default() -> (o: RunOrigin)
        ensures
            o.kind == RunOriginKind::Api,
    {
        RunOrigin { kind: RunOriginKind::Api }
    }
}

/// A model a run used.
#[derive(Debug, Clone, PartialEq, Eq)]
pub struct RunModel {
    pub provider: Option<String>,
    pub name: String,
}

/// The error a run ended with.
#[derive(Debug, Clone, PartialEq, Eq)]
pub struct RunError {
    pub message: String,
}

/// What a run cost, in millionths of a dollar.
#[derive(Debug, Clone, Copy, PartialEq, Eq, Structural)]
pub struct RunBillingSummary {
    pub total_usd_micros: Option<i64>,
}

/// Links to a run.
#[derive(Debug, Clone, PartialEq, Eq)]
pub struct RunLinks {
    pub web: Option<String>,
}

/// Options of the HTTP router: whether the web UI is served, from where,
/// and whether static files are watched for changes.
#[derive(Debug, Clone, PartialEq, Eq)]
pub struct RouterOptions {
    pub web_enabled: bool,
    pub static_asset_root: Option<String>,
    pub watch_web: bool,
}

impl Default for RouterOptions {
    fn default() -> (o: RouterOptions)
        ensures
            o.web_enabled,
            o.static_asset_root is None,
            !o.watch_web,
    {
        RouterOptions { web_enabled: true, static_asset_root: None, watch_web: false }
    }
}

} // verus!

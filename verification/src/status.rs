//! Run lifecycle statuses and the transition table between them.

use vstd::prelude::*;
use vstd::std_specs::convert::FromSpecImpl;
use crate::text::str_eq;

verus! {

/// Why a run finished successfully.
#[derive(Debug, Clone, Copy, PartialEq, Eq, Structural)]
pub enum SuccessReason {
    Completed,
    PartialSuccess,
}

/// Why a run failed.
#[derive(Debug, Clone, Copy, PartialEq, Eq, Structural)]
pub enum FailureReason {
    WorkflowError,
    Cancelled,
    Terminated,
    TransientInfra,
    BudgetExhausted,
    LaunchFailed,
    BootstrapFailed,
    SandboxInitFailed,
}

/// Why a run is waiting on something outside the engine.
#[derive(Debug, Clone, Copy, PartialEq, Eq, Structural)]
pub enum BlockedReason {
    HumanInputRequired,
}

/// A control request that an operator can place on a run.
#[derive(Debug, Clone, Copy, PartialEq, Eq, Structural)]
pub enum RunControlAction {
    Cancel,
    Pause,
    Unpause,
}

/// The lifecycle status of a run.
#[derive(Debug, Clone, Copy, PartialEq, Eq, Structural)]
pub enum RunStatus {
    Submitted,
    Queued,
    Starting,
    Running,
    Blocked { blocked_reason: BlockedReason },
    Paused { prior_block: Option<BlockedReason> },
    Removing,
    Succeeded { reason: SuccessReason },
    Failed { reason: FailureReason },
    Dead,
}

/// The terminal outcome of a run.
#[derive(Debug, Clone, Copy, PartialEq, Eq, Structural)]
pub enum TerminalStatus {
    Succeeded { reason: SuccessReason },
    Failed { reason: FailureReason },
    Dead,
}

/// A refused status change, carrying both ends.
#[derive(Debug, Clone, Copy, PartialEq, Eq, Structural)]
pub struct InvalidTransition {
    pub from: RunStatus,
    pub to: RunStatus,
}

impl RunStatus {
    /// The run reached a terminal outcome.
    pub open spec fn terminal(self) -> bool {
        self is Succeeded || self is Failed || self is Dead
    }

    /// The run's status is frozen for ordinary lifecycle events.
    pub open spec fn immutable(self) -> bool {
        self is Succeeded || self is Failed || self is Dead
    }

    /// The run is still in flight.
    pub open spec fn active(self) -> bool {
        ||| self is Submitted
        ||| self is Queued
        ||| self is Starting
        ||| self is Running
        ||| self is Blocked
        ||| self is Paused
        ||| self is Removing
    }

    /// The block reason that the status carries, directly or as the block a
    /// pause interrupted.
    pub open spec fn blocked_reason_of(self) -> Option<BlockedReason> {
        match self {
            RunStatus::Blocked { blocked_reason } => Some(blocked_reason),
            RunStatus::Paused { prior_block } => prior_block,
            _ => None,
        }
    }

    /// The terminal outcome of the status, if it is one.
    pub open spec fn terminal_status_of(self) -> Option<TerminalStatus> {
        match self {
            RunStatus::Succeeded { reason } => Some(TerminalStatus::Succeeded { reason }),
            RunStatus::Failed { reason } => Some(TerminalStatus::Failed { reason }),
            RunStatus::Dead => Some(TerminalStatus::Dead),
            _ => None,
        }
    }

    /// The lifecycle transition table.
    ///
    /// Everything may die; everything but a removal in progress may start
    /// removal; a failed run may be resubmitted; frozen statuses allow nothing
    /// else; the remaining pairs are the ordinary lifecycle edges.
    pub open spec fn allows(self, to: RunStatus) -> bool {
        if to is Dead {
            true
        } else if to is Removing {
            !(self is Removing)
        } else if self is Failed && to is Submitted {
            true
        } else if self.immutable() {
            false
        } else {
            Self::lifecycle_edge(self, to)
        }
    }

    /// Ordinary lifecycle edges between non-frozen statuses (the cases that
    /// `allows` does not settle before it).
    pub open spec fn lifecycle_edge(from: RunStatus, to: RunStatus) -> bool {
        ||| from is Submitted && (to is Queued || to is Starting)
        ||| to is Submitted && (from is Queued || from is Starting || from is Running
            || from is Blocked || from is Paused || from is Removing || from is Failed)
        ||| from is Queued && to is Starting
        ||| (from is Submitted || from is Queued)
            && to == (RunStatus::Failed { reason: FailureReason::Cancelled })
        ||| to is Running && (from is Starting || from is Paused || from is Blocked)
        ||| to is Failed && (from is Starting || from is Queued || from is Running
            || from is Blocked || from is Paused || from is Removing)
        ||| from is Running && (to is Succeeded || to is Blocked || to is Paused
            || to is Removing)
        ||| from is Blocked && to is Paused
        ||| from is Paused && (to is Paused || to is Blocked || to is Removing)
    }

    pub fn is_terminal(self) -> (b: bool)
        ensures
            b == self.terminal(),
    {
        match self {
            RunStatus::Succeeded { .. } | RunStatus::Failed { .. } | RunStatus::Dead => true,
            _ => false,
        }
    }

    pub fn is_immutable(self) -> (b: bool)
        ensures
            b == self.immutable(),
    {
        match self {
            RunStatus::Succeeded { .. } | RunStatus::Failed { .. } | RunStatus::Dead => true,
            _ => false,
        }
    }

    pub fn is_active(self) -> (b: bool)
        ensures
            b == self.active(),
    {
        match self {
            RunStatus::Submitted
            | RunStatus::Queued
            | RunStatus::Starting
            | RunStatus::Running
            | RunStatus::Blocked { .. }
            | RunStatus::Paused { .. }
            | RunStatus::Removing => true,
            _ => false,
        }
    }

    /// Deleting an active run needs `force`, except one already being removed.
    pub fn requires_force_to_delete(self) -> (b: bool)
        ensures
            b == (self.active() && !(self is Removing)),
    {
        self.is_active() && !matches!(self, RunStatus::Removing)
    }

    pub fn blocked_reason(self) -> (r: Option<BlockedReason>)
        ensures
            r == self.blocked_reason_of(),
    {
        match self {
            RunStatus::Blocked { blocked_reason } => Some(blocked_reason),
            RunStatus::Paused { prior_block } => prior_block,
            _ => None,
        }
    }

    pub fn terminal_status(self) -> (r: Option<TerminalStatus>)
        ensures
            r == self.terminal_status_of(),
    {
        match self {
            RunStatus::Succeeded { reason } => Some(TerminalStatus::Succeeded { reason }),
            RunStatus::Failed { reason } => Some(TerminalStatus::Failed { reason }),
            RunStatus::Dead => Some(TerminalStatus::Dead),
            _ => None,
        }
    }

    pub fn can_transition_to(self, to: RunStatus) -> (b: bool)
        ensures
            b == self.allows(to),
    {
        if matches!(to, RunStatus::Dead) {
            return true;
        }
        if matches!(to, RunStatus::Removing) {
            return !matches!(self, RunStatus::Removing);
        }
        if matches!(self, RunStatus::Failed { .. }) && matches!(to, RunStatus::Submitted) {
            return true;
        }
        if self.is_immutable() {
            return false;
        }
        match (self, to) {
            (RunStatus::Submitted, RunStatus::Queued) => true,
            (RunStatus::Submitted, RunStatus::Starting) => true,
            (RunStatus::Queued, RunStatus::Submitted) => true,
            (RunStatus::Starting, RunStatus::Submitted) => true,
            (RunStatus::Running, RunStatus::Submitted) => true,
            (RunStatus::Blocked { .. }, RunStatus::Submitted) => true,
            (RunStatus::Paused { .. }, RunStatus::Submitted) => true,
            (RunStatus::Removing, RunStatus::Submitted) => true,
            (RunStatus::Queued, RunStatus::Starting) => true,
            (RunStatus::Submitted, RunStatus::Failed { reason }) => match reason {
                FailureReason::Cancelled => true,
                _ => false,
            },
            (RunStatus::Starting, RunStatus::Running) => true,
            (RunStatus::Paused { .. }, RunStatus::Running) => true,
            (RunStatus::Blocked { .. }, RunStatus::Running) => true,
            (RunStatus::Starting, RunStatus::Failed { .. }) => true,
            (RunStatus::Queued, RunStatus::Failed { .. }) => true,
            (RunStatus::Running, RunStatus::Failed { .. }) => true,
            (RunStatus::Blocked { .. }, RunStatus::Failed { .. }) => true,
            (RunStatus::Paused { .. }, RunStatus::Failed { .. }) => true,
            (RunStatus::Removing, RunStatus::Failed { .. }) => true,
            (RunStatus::Running, RunStatus::Succeeded { .. }) => true,
            (RunStatus::Running, RunStatus::Blocked { .. }) => true,
            (RunStatus::Running, RunStatus::Paused { .. }) => true,
            (RunStatus::Blocked { .. }, RunStatus::Paused { .. }) => true,
            (RunStatus::Paused { .. }, RunStatus::Paused { .. }) => true,
            (RunStatus::Paused { .. }, RunStatus::Blocked { .. }) => true,
            _ => false,
        }
    }

    /// Moves to `to` when the table allows it; otherwise reports the refused
    /// pair.
    pub fn transition_to(self, to: RunStatus) -> (r: Result<RunStatus, InvalidTransition>)
        ensures
            self.allows(to) ==> r == Ok::<RunStatus, InvalidTransition>(to),
            !self.allows(to) ==> r == Err::<RunStatus, InvalidTransition>(
                InvalidTransition { from: self, to },
            ),
    {
        if self.can_transition_to(to) {
            Ok(to)
        } else {
            Err(InvalidTransition { from: self, to })
        }
    }
}

// ---------------------------------------------------------------------------
// Names and parsing

/// `format!("{:?}", s)` of a string: what `<str as Debug>::fmt` writes.
pub uninterp spec fn debug_quoted(s: Seq<char>) -> Seq<char>;

/// Calls `format!` with a prefix and the `Debug` rendering of a string.
#[verifier::external_body]
fn format_with_debug(prefix: &str, s: &str) -> (r: String)
    ensures
        r@ == prefix@ + debug_quoted(s@),
{
    format!("{prefix}{s:?}")
}

impl SuccessReason {
    /// The snake_case name of the reason.
    pub open spec fn name(self) -> Seq<char> {
        match self {
            SuccessReason::Completed => "completed"@,
            SuccessReason::PartialSuccess => "partial_success"@,
        }
    }

    pub fn as_str(self) -> (s: &'static str)
        ensures
            s@ == self.name(),
    {
        match self {
            SuccessReason::Completed => "completed",
            SuccessReason::PartialSuccess => "partial_success",
        }
    }

    pub fn to_string(self) -> (s: String)
        ensures
            s@ == self.name(),
    {
        self.as_str().to_string()
    }

    /// The reason whose name is `s`, if any.
    pub open spec fn parse_spec(s: Seq<char>) -> Option<SuccessReason> {
        if s == "completed"@ {
            Some(SuccessReason::Completed)
        } else if s == "partial_success"@ {
            Some(SuccessReason::PartialSuccess)
        } else {
            None
        }
    }

    pub fn from_str(s: &str) -> (r: Result<SuccessReason, ParseSuccessReasonError>)
        ensures
            Self::parse_spec(s@) matches Some(x) ==> r == Ok::<
                SuccessReason,
                ParseSuccessReasonError,
            >(x),
            Self::parse_spec(s@) is None ==> (r matches Err(e) && e.input@ == s@),
    {
        if str_eq(s, "completed") {
            Ok(SuccessReason::Completed)
        } else if str_eq(s, "partial_success") {
            Ok(SuccessReason::PartialSuccess)
        } else {
            Err(ParseSuccessReasonError { input: s.to_string() })
        }
    }
}

/// A string that names no success reason.
#[derive(Debug, Clone)]
pub struct ParseSuccessReasonError {
    pub input: String,
}

impl ParseSuccessReasonError {
    /// `invalid success reason: "<input>"`.
    pub fn to_string(&self) -> (s: String)
        ensures
            s@ == "invalid success reason: "@ + debug_quoted(self.input@),
    {
        format_with_debug("invalid success reason: ", self.input.as_str())
    }
}

impl FailureReason {
    /// The snake_case name of the reason.
    pub open spec fn name(self) -> Seq<char> {
        match self {
            FailureReason::WorkflowError => "workflow_error"@,
            FailureReason::Cancelled => "cancelled"@,
            FailureReason::Terminated => "terminated"@,
            FailureReason::TransientInfra => "transient_infra"@,
            FailureReason::BudgetExhausted => "budget_exhausted"@,
            FailureReason::LaunchFailed => "launch_failed"@,
            FailureReason::BootstrapFailed => "bootstrap_failed"@,
            FailureReason::SandboxInitFailed => "sandbox_init_failed"@,
        }
    }

    pub fn as_str(self) -> (s: &'static str)
        ensures
            s@ == self.name(),
    {
        match self {
            FailureReason::WorkflowError => "workflow_error",
            FailureReason::Cancelled => "cancelled",
            FailureReason::Terminated => "terminated",
            FailureReason::TransientInfra => "transient_infra",
            FailureReason::BudgetExhausted => "budget_exhausted",
            FailureReason::LaunchFailed => "launch_failed",
            FailureReason::BootstrapFailed => "bootstrap_failed",
            FailureReason::SandboxInitFailed => "sandbox_init_failed",
        }
    }

    pub fn to_string(self) -> (s: String)
        ensures
            s@ == self.name(),
    {
        self.as_str().to_string()
    }

    /// The reason whose name is `s`, if any.
    pub open spec fn parse_spec(s: Seq<char>) -> Option<FailureReason> {
        if s == "workflow_error"@ {
            Some(FailureReason::WorkflowError)
        } else if s == "cancelled"@ {
            Some(FailureReason::Cancelled)
        } else if s == "terminated"@ {
            Some(FailureReason::Terminated)
        } else if s == "transient_infra"@ {
            Some(FailureReason::TransientInfra)
        } else if s == "budget_exhausted"@ {
            Some(FailureReason::BudgetExhausted)
        } else if s == "launch_failed"@ {
            Some(FailureReason::LaunchFailed)
        } else if s == "bootstrap_failed"@ {
            Some(FailureReason::BootstrapFailed)
        } else if s == "sandbox_init_failed"@ {
            Some(FailureReason::SandboxInitFailed)
        } else {
            None
        }
    }

    pub fn from_str(s: &str) -> (r: Result<FailureReason, ParseFailureReasonError>)
        ensures
            Self::parse_spec(s@) matches Some(x) ==> r == Ok::<
                FailureReason,
                ParseFailureReasonError,
            >(x),
            Self::parse_spec(s@) is None ==> (r matches Err(e) && e.input@ == s@),
    {
        if str_eq(s, "workflow_error") {
            Ok(FailureReason::WorkflowError)
        } else if str_eq(s, "cancelled") {
            Ok(FailureReason::Cancelled)
        } else if str_eq(s, "terminated") {
            Ok(FailureReason::Terminated)
        } else if str_eq(s, "transient_infra") {
            Ok(FailureReason::TransientInfra)
        } else if str_eq(s, "budget_exhausted") {
            Ok(FailureReason::BudgetExhausted)
        } else if str_eq(s, "launch_failed") {
            Ok(FailureReason::LaunchFailed)
        } else if str_eq(s, "bootstrap_failed") {
            Ok(FailureReason::BootstrapFailed)
        } else if str_eq(s, "sandbox_init_failed") {
            Ok(FailureReason::SandboxInitFailed)
        } else {
            Err(ParseFailureReasonError { input: s.to_string() })
        }
    }
}

/// A string that names no failure reason.
#[derive(Debug, Clone)]
pub struct ParseFailureReasonError {
    pub input: String,
}

impl ParseFailureReasonError {
    /// `invalid failure reason: "<input>"`.
    pub fn to_string(&self) -> (s: String)
        ensures
            s@ == "invalid failure reason: "@ + debug_quoted(self.input@),
    {
        format_with_debug("invalid failure reason: ", self.input.as_str())
    }
}

impl BlockedReason {
    pub open spec fn name(self) -> Seq<char> {
        match self {
            BlockedReason::HumanInputRequired => "human_input_required"@,
        }
    }

    pub fn as_str(self) -> (s: &'static str)
        ensures
            s@ == self.name(),
    {
        match self {
            BlockedReason::HumanInputRequired => "human_input_required",
        }
    }

    pub fn to_string(self) -> (s: String)
        ensures
            s@ == self.name(),
    {
        self.as_str().to_string()
    }
}

/// `head(inner)`.
fn wrapped(head: &str, inner: &str) -> (s: String)
    ensures
        s@ == head@ + seq!['('] + inner@ + seq![')'],
{
    let mut s = head.to_string();
    let open = "(";
    let close = ")";
    proof {
        reveal_strlit("(");
        reveal_strlit(")");
    }
    s.append(open);
    s.append(inner);
    s.append(close);
    assert(s@ =~= head@ + seq!['('] + inner@ + seq![')']);
    s
}

/// `head(inner)` as a sequence.
pub open spec fn wrapped_spec(head: Seq<char>, inner: Seq<char>) -> Seq<char> {
    head + seq!['('] + inner + seq![')']
}

impl RunStatus {
    /// How the status is written: its snake_case name, with the reason in
    /// brackets where it carries one.
    pub open spec fn display(self) -> Seq<char> {
        match self {
            RunStatus::Submitted => "submitted"@,
            RunStatus::Queued => "queued"@,
            RunStatus::Starting => "starting"@,
            RunStatus::Running => "running"@,
            RunStatus::Blocked { blocked_reason } => wrapped_spec(
                "blocked"@,
                blocked_reason.name(),
            ),
            RunStatus::Paused { prior_block: Some(r) } => wrapped_spec("paused"@, r.name()),
            RunStatus::Paused { prior_block: None } => "paused"@,
            RunStatus::Removing => "removing"@,
            RunStatus::Succeeded { reason } => wrapped_spec("succeeded"@, reason.name()),
            RunStatus::Failed { reason } => wrapped_spec("failed"@, reason.name()),
            RunStatus::Dead => "dead"@,
        }
    }

    pub fn to_string(self) -> (s: String)
        ensures
            s@ == self.display(),
    {
        match self {
            RunStatus::Submitted => "submitted".to_string(),
            RunStatus::Queued => "queued".to_string(),
            RunStatus::Starting => "starting".to_string(),
            RunStatus::Running => "running".to_string(),
            RunStatus::Blocked { blocked_reason } => wrapped("blocked", blocked_reason.as_str()),
            RunStatus::Paused { prior_block: Some(r) } => wrapped("paused", r.as_str()),
            RunStatus::Paused { prior_block: None } => "paused".to_string(),
            RunStatus::Removing => "removing".to_string(),
            RunStatus::Succeeded { reason } => wrapped("succeeded", reason.as_str()),
            RunStatus::Failed { reason } => wrapped("failed", reason.as_str()),
            RunStatus::Dead => "dead".to_string(),
        }
    }
}

impl TerminalStatus {
    pub open spec fn display(self) -> Seq<char> {
        match self {
            TerminalStatus::Succeeded { reason } => wrapped_spec("succeeded"@, reason.name()),
            TerminalStatus::Failed { reason } => wrapped_spec("failed"@, reason.name()),
            TerminalStatus::Dead => "dead"@,
        }
    }

    pub fn to_string(self) -> (s: String)
        ensures
            s@ == self.display(),
    {
        match self {
            TerminalStatus::Succeeded { reason } => wrapped("succeeded", reason.as_str()),
            TerminalStatus::Failed { reason } => wrapped("failed", reason.as_str()),
            TerminalStatus::Dead => "dead".to_string(),
        }
    }

    /// The run status that a terminal outcome is.
    pub open spec fn as_run_status(self) -> RunStatus {
        match self {
            TerminalStatus::Succeeded { reason } => RunStatus::Succeeded { reason },
            TerminalStatus::Failed { reason } => RunStatus::Failed { reason },
            TerminalStatus::Dead => RunStatus::Dead,
        }
    }
}

impl From<TerminalStatus> for RunStatus {
    fn from(value: TerminalStatus) -> (r: RunStatus) {
        match value {
            TerminalStatus::Succeeded { reason } => RunStatus::Succeeded { reason },
            TerminalStatus::Failed { reason } => RunStatus::Failed { reason },
            TerminalStatus::Dead => RunStatus::Dead,
        }
    }
}

impl FromSpecImpl<TerminalStatus> for RunStatus {
    open spec fn obeys_from_spec() -> bool {
        true
    }

    open spec fn from_spec(v: TerminalStatus) -> RunStatus {
        v.as_run_status()
    }
}

impl InvalidTransition {
    /// `invalid status transition: <from> -> <to>`.
    pub fn to_string(&self) -> (s: String)
        ensures
            s@ == "invalid status transition: "@ + self.from.display() + " -> "@
                + self.to.display(),
    {
        let mut s = "invalid status transition: ".to_string();
        let from = self.from.to_string();
        let to = self.to.to_string();
        s.append(from.as_str());
        s.append(" -> ");
        s.append(to.as_str());
        s
    }
}

/// The status a lifecycle name stands for, with the reason a success or a
/// failure names (`completed` and `workflow_error` when it names none that
/// is known). A blocked run waits on human input; a paused one interrupted
/// no block.
pub open spec fn status_from_names(status: Seq<char>, reason: Option<Seq<char>>) -> Option<RunStatus> {
    if status == "submitted"@ {
        Some(RunStatus::Submitted)
    } else if status == "queued"@ {
        Some(RunStatus::Queued)
    } else if status == "starting"@ {
        Some(RunStatus::Starting)
    } else if status == "running"@ {
        Some(RunStatus::Running)
    } else if status == "blocked"@ {
        Some(RunStatus::Blocked { blocked_reason: BlockedReason::HumanInputRequired })
    } else if status == "paused"@ {
        Some(RunStatus::Paused { prior_block: None })
    } else if status == "removing"@ {
        Some(RunStatus::Removing)
    } else if status == "succeeded"@ {
        Some(
            RunStatus::Succeeded {
                reason: match reason {
                    Some(r) => match SuccessReason::parse_spec(r) {
                        Some(x) => x,
                        None => SuccessReason::Completed,
                    },
                    None => SuccessReason::Completed,
                },
            },
        )
    } else if status == "failed"@ {
        Some(
            RunStatus::Failed {
                reason: match reason {
                    Some(r) => match FailureReason::parse_spec(r) {
                        Some(x) => x,
                        None => FailureReason::WorkflowError,
                    },
                    None => FailureReason::WorkflowError,
                },
            },
        )
    } else if status == "dead"@ {
        Some(RunStatus::Dead)
    } else {
        None
    }
}

/// Reads a run status from its lifecycle name and an optional reason name.
pub fn parse_run_status(status: &str, status_reason: Option<&str>) -> (r: Option<RunStatus>)
    ensures
        r == status_from_names(
            status@,
            match status_reason {
                Some(x) => Some(x@),
                None => None,
            },
        ),
{
    if str_eq(status, "submitted") {
        Some(RunStatus::Submitted)
    } else if str_eq(status, "queued") {
        Some(RunStatus::Queued)
    } else if str_eq(status, "starting") {
        Some(RunStatus::Starting)
    } else if str_eq(status, "running") {
        Some(RunStatus::Running)
    } else if str_eq(status, "blocked") {
        Some(RunStatus::Blocked { blocked_reason: BlockedReason::HumanInputRequired })
    } else if str_eq(status, "paused") {
        Some(RunStatus::Paused { prior_block: None })
    } else if str_eq(status, "removing") {
        Some(RunStatus::Removing)
    } else if str_eq(status, "succeeded") {
        let reason = match status_reason {
            Some(x) => match SuccessReason::from_str(x) {
                Ok(r) => r,
                Err(_) => SuccessReason::Completed,
            },
            None => SuccessReason::Completed,
        };
        Some(RunStatus::Succeeded { reason })
    } else if str_eq(status, "failed") {
        let reason = match status_reason {
            Some(x) => match FailureReason::from_str(x) {
                Ok(r) => r,
                Err(_) => FailureReason::WorkflowError,
            },
            None => FailureReason::WorkflowError,
        };
        Some(RunStatus::Failed { reason })
    } else if str_eq(status, "dead") {
        Some(RunStatus::Dead)
    } else {
        None
    }
}

// ---------------------------------------------------------------------------
// Laws

/// Terminal and immutable are the same set of statuses, and every status is
/// either active or terminal, never both.
pub proof fn law_terminal_partition(s: RunStatus)
    ensures
        s.terminal() == s.immutable(),
        s.active() != s.terminal(),
{
}

/// A delete that needs `force` is a delete of an active run.
pub proof fn law_force_delete_only_active(s: RunStatus)
    ensures
        (s.active() && !(s is Removing)) ==> s.active(),
        s.terminal() ==> !(s.active() && !(s is Removing)),
{
}

/// Every active status but `Submitted` (starting, queued, running,
/// blocked, paused, removing) may fail, for any reason: `can_transition_to`
/// answers yes.
pub proof fn law_active_runs_may_fail(from: RunStatus, reason: FailureReason, answer: bool)
    requires
        answer == from.allows(RunStatus::Failed { reason }),
        from is Starting || from is Queued || from is Running || from is Blocked || from is Paused
            || from is Removing,
    ensures
        answer,
{
}

/// The lifecycle moves the table allows, for every reason and prior
/// block: a starting, paused or blocked run may run; a running run may
/// succeed, block, pause or be removed; a blocked run may pause; a paused
/// run may pause again, block or be removed; a queued run may start; a
/// submitted run may be queued or start.
pub proof fn law_lifecycle_moves(from: RunStatus, to: RunStatus, answer: bool)
    requires
        answer == from.allows(to),
        ((from is Starting || from is Paused || from is Blocked) && to is Running)
            || (from is Running && (to is Succeeded || to is Blocked || to is Paused || to is Removing))
            || (from is Blocked && to is Paused)
            || (from is Paused && (to is Paused || to is Blocked || to is Removing))
            || (from is Queued && to is Starting)
            || (from is Submitted && (to is Queued || to is Starting)),
    ensures
        answer,
{
}

/// A submitted or queued run may fail only as cancelled.
pub proof fn law_waiting_runs_fail_only_cancelled(from: RunStatus, reason: FailureReason, answer: bool)
    requires
        answer == from.allows(RunStatus::Failed { reason }),
        from is Submitted || from is Queued,
    ensures
        answer == (from is Queued || reason == FailureReason::Cancelled),
{
}

/// Every status can be declared dead.
pub proof fn law_dead_always_reachable(s: RunStatus)
    ensures
        s.allows(RunStatus::Dead),
{
}

/// Every status but a removal in progress can start removal.
pub proof fn law_removing_reachable(s: RunStatus)
    ensures
        s.allows(RunStatus::Removing) == !(s is Removing),
{
}

/// A frozen status leaves only by death, removal, or resubmission of a
/// failed run.
pub proof fn law_immutable_is_frozen(s: RunStatus, t: RunStatus)
    requires
        s.immutable(),
        s.allows(t),
    ensures
        t is Dead || t is Removing || (s is Failed && t is Submitted),
{
}

/// Apart from death, removal and resubmission, no transition enters a
/// terminal status except success from running and failure from an active
/// status.
pub proof fn law_terminal_entered_from_active(s: RunStatus, t: RunStatus)
    requires
        s.allows(t),
        t is Succeeded || t is Failed,
    ensures
        s.active(),
        t is Succeeded ==> s is Running,
{
}

/// A terminal status is the image of exactly one terminal outcome.
pub proof fn law_terminal_status_round_trip(s: RunStatus, t: TerminalStatus)
    ensures
        t.as_run_status().terminal_status_of() == Some(t),
        s.terminal_status_of() == Some(t) ==> t.as_run_status() == s,
        s.terminal() == (s.terminal_status_of() is Some),
{
}

/// Only blocked and paused statuses carry a block reason.
pub proof fn law_blocked_reason_shape(s: RunStatus)
    ensures
        s.blocked_reason_of() is Some ==> (s is Blocked || s is Paused),
        s is Blocked ==> s.blocked_reason_of() is Some,
{
}

/// Every reason name parses back to its reason.
pub proof fn law_reason_names_round_trip(a: SuccessReason, b: FailureReason)
    ensures
        SuccessReason::parse_spec(a.name()) == Some(a),
        FailureReason::parse_spec(b.name()) == Some(b),
{
    reveal_strlit("completed");
    reveal_strlit("partial_success");
    reveal_strlit("workflow_error");
    reveal_strlit("cancelled");
    reveal_strlit("terminated");
    reveal_strlit("transient_infra");
    reveal_strlit("budget_exhausted");
    reveal_strlit("launch_failed");
    reveal_strlit("bootstrap_failed");
    reveal_strlit("sandbox_init_failed");
    assert("completed"@.len() != "partial_success"@.len());
    assert("workflow_error"@.len() != "cancelled"@.len());
    assert("workflow_error"@.len() != "terminated"@.len());
    assert("workflow_error"@.len() != "transient_infra"@.len());
    assert("workflow_error"@.len() != "budget_exhausted"@.len());
    assert("workflow_error"@.len() != "launch_failed"@.len());
    assert("workflow_error"@.len() != "bootstrap_failed"@.len());
    assert("workflow_error"@.len() != "sandbox_init_failed"@.len());
    assert("cancelled"@.len() != "terminated"@.len());
    assert("cancelled"@.len() != "transient_infra"@.len());
    assert("cancelled"@.len() != "budget_exhausted"@.len());
    assert("cancelled"@.len() != "launch_failed"@.len());
    assert("cancelled"@.len() != "bootstrap_failed"@.len());
    assert("cancelled"@.len() != "sandbox_init_failed"@.len());
    assert("terminated"@.len() != "transient_infra"@.len());
    assert("terminated"@.len() != "budget_exhausted"@.len());
    assert("terminated"@.len() != "launch_failed"@.len());
    assert("terminated"@.len() != "bootstrap_failed"@.len());
    assert("terminated"@.len() != "sandbox_init_failed"@.len());
    assert("transient_infra"@.len() != "budget_exhausted"@.len());
    assert("transient_infra"@.len() != "launch_failed"@.len());
    assert("transient_infra"@.len() != "bootstrap_failed"@.len());
    assert("transient_infra"@.len() != "sandbox_init_failed"@.len());
    assert("budget_exhausted"@.len() != "launch_failed"@.len());
    assert("budget_exhausted"@[1] != "bootstrap_failed"@[1]);
    assert("budget_exhausted"@.len() != "sandbox_init_failed"@.len());
    assert("launch_failed"@.len() != "bootstrap_failed"@.len());
    assert("launch_failed"@.len() != "sandbox_init_failed"@.len());
    assert("bootstrap_failed"@.len() != "sandbox_init_failed"@.len());
}

} // verus!

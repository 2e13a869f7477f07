//! What the server tracks of a run while it executes: its status, its error,
//! and which stages have a steerable or a non-steerable agent session open,
//! kept up to date from the run's events.

use vstd::prelude::*;
use crate::ids::StageId;
use crate::keyed::{
    keys_unique, lemma_lookup_absent, lemma_lookup_at, lemma_lookup_push, lemma_lookup_remove,
    lemma_lookup_update, lookup,
};
use crate::projection::CommandTermination;
use crate::projection::RunProjection;
use crate::reducer::{EventBody, RunEvent, applied, status_target};
use crate::status::RunStatus;
use crate::text::str_eq;

verus! {

/// A stage visit as a key: node id and visit number.
pub open spec fn stage_key(s: StageId) -> (Seq<char>, u32) {
    (s.node_id@, s.visit)
}

/// The key of a steerable-stage entry.
pub open spec fn api_entry_key() -> spec_fn((StageId, String)) -> (Seq<char>, u32) {
    |e: (StageId, String)| stage_key(e.0)
}

/// The key of a non-steerable stage.
pub open spec fn stage_entry_key() -> spec_fn(StageId) -> (Seq<char>, u32) {
    |s: StageId| stage_key(s)
}

/// The live state of a run the server executes.
#[derive(Debug, Clone)]
pub struct LiveRunState {
    pub status: RunStatus,
    pub error: Option<String>,
    /// Stages with a steerable API-mode agent session, with the id of the
    /// session that holds the lease.
    pub active_api_stages: Vec<(StageId, String)>,
    /// Stages with a running CLI or ACP agent, which cannot be steered.
    pub active_non_steerable_agent_stages: Vec<StageId>,
}

impl LiveRunState {
    /// Each stage appears at most once in each list.
    pub open spec fn wf(&self) -> bool {
        &&& keys_unique(self.active_api_stages@, api_entry_key())
        &&& keys_unique(self.active_non_steerable_agent_stages@, stage_entry_key())
    }

    /// The session holding the steering lease of a stage, if any.
    pub open spec fn api_session(&self, k: (Seq<char>, u32)) -> Option<Seq<char>> {
        match lookup(self.active_api_stages@, api_entry_key(), k) {
            Some(e) => Some(e.1@),
            None => None,
        }
    }

    /// Whether a stage runs a non-steerable agent.
    pub open spec fn runs_non_steerable(&self, k: (Seq<char>, u32)) -> bool {
        lookup(self.active_non_steerable_agent_stages@, stage_entry_key(), k) is Some
    }

    /// A freshly tracked run in the given status, with nothing active.
    pub fn new(status: RunStatus) -> (s: LiveRunState)
        ensures
            s.wf(),
            s.status == status,
            s.error is None,
            forall|k: (Seq<char>, u32)| #[trigger] s.api_session(k) is None,
            forall|k: (Seq<char>, u32)| !#[trigger] s.runs_non_steerable(k),
    {
        let s = LiveRunState {
            status,
            error: None,
            active_api_stages: Vec::new(),
            active_non_steerable_agent_stages: Vec::new(),
        };
        proof {
            assert forall|k: (Seq<char>, u32)| #[trigger] s.api_session(k) is None by {
                lemma_lookup_absent(s.active_api_stages@, api_entry_key(), k);
            }
            assert forall|k: (Seq<char>, u32)| !#[trigger] s.runs_non_steerable(k) by {
                lemma_lookup_absent(s.active_non_steerable_agent_stages@, stage_entry_key(), k);
            }
        }
        s
    }
}

fn stage_eq(a: &StageId, b: &StageId) -> (r: bool)
    ensures
        r == (stage_key(*a) == stage_key(*b)),
{
    a.visit == b.visit && str_eq(a.node_id.as_str(), b.node_id.as_str())
}

fn copy_stage(s: &StageId) -> (r: StageId)
    ensures
        r == *s,
{
    StageId { node_id: s.node_id.clone(), visit: s.visit }
}

impl LiveRunState {
    fn find_api(&self, stage: &StageId) -> (r: Option<usize>)
        ensures
            r matches Some(i) ==> i < self.active_api_stages@.len() && stage_key(self.active_api_stages@[i as int].0)
                == stage_key(*stage),
            r is None ==> forall|i: int|
                0 <= i < self.active_api_stages@.len() ==> (api_entry_key())(#[trigger] self.active_api_stages@[i])
                    != stage_key(*stage),
    {
        let mut i: usize = 0;
        while i < self.active_api_stages.len()
            invariant
                i <= self.active_api_stages@.len(),
                forall|j: int|
                    0 <= j < i ==> (api_entry_key())(#[trigger] self.active_api_stages@[j]) != stage_key(*stage),
            decreases self.active_api_stages.len() - i,
        {
            if stage_eq(&self.active_api_stages[i].0, stage) {
                return Some(i);
            }
            i = i + 1;
        }
        None
    }

    fn find_non_steerable(&self, stage: &StageId) -> (r: Option<usize>)
        ensures
            r matches Some(i) ==> i < self.active_non_steerable_agent_stages@.len() && stage_key(
                self.active_non_steerable_agent_stages@[i as int],
            ) == stage_key(*stage),
            r is None ==> forall|i: int|
                0 <= i < self.active_non_steerable_agent_stages@.len() ==> (stage_entry_key())(
                    #[trigger] self.active_non_steerable_agent_stages@[i],
                ) != stage_key(*stage),
    {
        let mut i: usize = 0;
        while i < self.active_non_steerable_agent_stages.len()
            invariant
                i <= self.active_non_steerable_agent_stages@.len(),
                forall|j: int|
                    0 <= j < i ==> (stage_entry_key())(#[trigger] self.active_non_steerable_agent_stages@[j])
                        != stage_key(*stage),
            decreases self.active_non_steerable_agent_stages.len() - i,
        {
            if stage_eq(&self.active_non_steerable_agent_stages[i], stage) {
                return Some(i);
            }
            i = i + 1;
        }
        None
    }

    /// Gives `stage`'s steering lease to `session`.
    fn lease_api_stage(&mut self, stage: &StageId, session: &String)
        requires
            old(self).wf(),
        ensures
            final(self).wf(),
            final(self).status == old(self).status,
            final(self).error == old(self).error,
            final(self).active_non_steerable_agent_stages == old(self).active_non_steerable_agent_stages,
            forall|k: (Seq<char>, u32)|
                #[trigger] final(self).api_session(k) == if k == stage_key(*stage) {
                    Some(session@)
                } else {
                    old(self).api_session(k)
                },
    {
        let ghost s0 = self.active_api_stages@;
        let entry = (copy_stage(stage), session.clone());
        match self.find_api(stage) {
            Some(i) => {
                proof {
                    lemma_lookup_update(s0, api_entry_key(), i as int, entry);
                }
                self.active_api_stages.set(i, entry);
            },
            None => {
                proof {
                    lemma_lookup_push(s0, api_entry_key(), entry);
                }
                self.active_api_stages.push(entry);
            },
        }
    }

    /// Ends `stage`'s steering lease, whoever holds it.
    fn release_api_stage(&mut self, stage: &StageId)
        requires
            old(self).wf(),
        ensures
            final(self).wf(),
            final(self).status == old(self).status,
            final(self).error == old(self).error,
            final(self).active_non_steerable_agent_stages == old(self).active_non_steerable_agent_stages,
            forall|k: (Seq<char>, u32)|
                #[trigger] final(self).api_session(k) == if k == stage_key(*stage) {
                    None
                } else {
                    old(self).api_session(k)
                },
    {
        let ghost s0 = self.active_api_stages@;
        match self.find_api(stage) {
            Some(i) => {
                proof {
                    lemma_lookup_remove(s0, api_entry_key(), i as int);
                }
                self.active_api_stages.remove(i);
            },
            None => {
                proof {
                    lemma_lookup_absent(s0, api_entry_key(), stage_key(*stage));
                }
            },
        }
    }

    /// Marks `stage` as running a non-steerable agent.
    fn add_non_steerable(&mut self, stage: &StageId)
        requires
            old(self).wf(),
        ensures
            final(self).wf(),
            final(self).status == old(self).status,
            final(self).error == old(self).error,
            final(self).active_api_stages == old(self).active_api_stages,
            forall|k: (Seq<char>, u32)|
                #[trigger] final(self).runs_non_steerable(k) == (k == stage_key(*stage) || old(self).runs_non_steerable(k)),
    {
        let ghost s0 = self.active_non_steerable_agent_stages@;
        match self.find_non_steerable(stage) {
            Some(i) => {
                proof {
                    lemma_lookup_at(s0, stage_entry_key(), i as int);
                }
            },
            None => {
                let copy = copy_stage(stage);
                proof {
                    lemma_lookup_push(s0, stage_entry_key(), copy);
                }
                self.active_non_steerable_agent_stages.push(copy);
            },
        }
    }

    /// Marks `stage` as no longer running a non-steerable agent.
    fn remove_non_steerable(&mut self, stage: &StageId)
        requires
            old(self).wf(),
        ensures
            final(self).wf(),
            final(self).status == old(self).status,
            final(self).error == old(self).error,
            final(self).active_api_stages == old(self).active_api_stages,
            forall|k: (Seq<char>, u32)|
                #[trigger] final(self).runs_non_steerable(k) == (k != stage_key(*stage) && old(self).runs_non_steerable(k)),
    {
        let ghost s0 = self.active_non_steerable_agent_stages@;
        match self.find_non_steerable(stage) {
            Some(i) => {
                proof {
                    lemma_lookup_remove(s0, stage_entry_key(), i as int);
                }
                self.active_non_steerable_agent_stages.remove(i);
            },
            None => {
                proof {
                    lemma_lookup_absent(s0, stage_entry_key(), stage_key(*stage));
                }
            },
        }
    }
}

/// The status a tracked run moves to on an event: the one the event asks
/// for, else the current one.
pub open spec fn live_status_after(current: RunStatus, body: EventBody) -> RunStatus {
    match status_target(Some(current), body) {
        Some(t) => t,
        None => current,
    }
}

/// The error a tracked run shows after an event.
pub open spec fn live_error_after(current: Option<Seq<char>>, body: EventBody) -> Option<Seq<char>> {
    match body {
        EventBody::RunCompleted { .. } => None,
        EventBody::RunFailed { error, .. } => Some(error@),
        _ => current,
    }
}

/// The holder of a stage's steering lease after an event.
pub open spec fn api_session_after(old: LiveRunState, e: RunEvent, k: (Seq<char>, u32)) -> Option<Seq<char>> {
    match e.body {
        EventBody::RunCompleted { .. } | EventBody::RunFailed { .. } => None,
        EventBody::AgentSessionActivated { steerable, .. } => match (e.stage_id, e.session_id) {
            (Some(st), Some(sess)) => if steerable && k == stage_key(st) {
                Some(sess@)
            } else {
                old.api_session(k)
            },
            _ => old.api_session(k),
        },
        EventBody::AgentSessionDeactivated => match (e.stage_id, e.session_id) {
            (Some(st), Some(sess)) => if k == stage_key(st) && old.api_session(k) == Some(sess@) {
                None
            } else {
                old.api_session(k)
            },
            _ => old.api_session(k),
        },
        EventBody::StageCompleted { .. } | EventBody::StageFailed { .. } => match e.stage_id {
            Some(st) => if k == stage_key(st) {
                None
            } else {
                old.api_session(k)
            },
            None => old.api_session(k),
        },
        _ => old.api_session(k),
    }
}

/// Whether the agent that ends with an event is a non-steerable one whose
/// stage stops being tracked.
pub open spec fn ends_non_steerable(body: EventBody) -> bool {
    match body {
        EventBody::AgentCliEnded { termination, .. } => termination == CommandTermination::Exited,
        EventBody::AgentAcpEnded | EventBody::StageCompleted { .. } | EventBody::StageFailed { .. } => true,
        _ => false,
    }
}

/// Whether a stage runs a non-steerable agent after an event.
pub open spec fn non_steerable_after(old: LiveRunState, e: RunEvent, k: (Seq<char>, u32)) -> bool {
    match e.body {
        EventBody::RunCompleted { .. } | EventBody::RunFailed { .. } => false,
        EventBody::AgentCliStarted { .. } | EventBody::AgentAcpStarted => match e.stage_id {
            Some(st) => k == stage_key(st) || old.runs_non_steerable(k),
            None => old.runs_non_steerable(k),
        },
        _ => if ends_non_steerable(e.body) {
            match e.stage_id {
                Some(st) => k != stage_key(st) && old.runs_non_steerable(k),
                None => old.runs_non_steerable(k),
            }
        } else {
            old.runs_non_steerable(k)
        },
    }
}

impl LiveRunState {
    /// Folds one event of the run into its live state: status changes, the
    /// error of a failed run, and the agent sessions that open and close on
    /// its stages. A run that ends forgets all its sessions.
    pub fn apply_event(&mut self, e: &RunEvent)
        requires
            old(self).wf(),
        ensures
            final(self).wf(),
            final(self).status == live_status_after(old(self).status, e.body),
            match final(self).error {
                Some(x) => live_error_after(match old(self).error {
                    Some(y) => Some(y@),
                    None => None,
                }, e.body) == Some(x@),
                None => live_error_after(match old(self).error {
                    Some(y) => Some(y@),
                    None => None,
                }, e.body) is None,
            },
            forall|k: (Seq<char>, u32)| #[trigger] final(self).api_session(k) == api_session_after(*old(self), *e, k),
            forall|k: (Seq<char>, u32)|
                #[trigger] final(self).runs_non_steerable(k) == non_steerable_after(*old(self), *e, k),
    {
        let ghost pre = *self;
        match &e.body {
            EventBody::RunSubmitted => {
                self.status = RunStatus::Submitted;
            },
            EventBody::RunQueued => {
                self.status = RunStatus::Queued;
            },
            EventBody::RunStarting => {
                self.status = RunStatus::Starting;
            },
            EventBody::RunRunning => {
                self.status = RunStatus::Running;
            },
            EventBody::RunBlocked { blocked_reason } => {
                self.status = match self.status {
                    RunStatus::Paused { .. } => RunStatus::Paused { prior_block: Some(*blocked_reason) },
                    _ => RunStatus::Blocked { blocked_reason: *blocked_reason },
                };
            },
            EventBody::RunUnblocked => {
                self.status = match self.status {
                    RunStatus::Paused { .. } => RunStatus::Paused { prior_block: None },
                    _ => RunStatus::Running,
                };
            },
            EventBody::RunPaused => {
                let prior_block = match self.status {
                    RunStatus::Blocked { blocked_reason } => Some(blocked_reason),
                    RunStatus::Paused { prior_block } => prior_block,
                    _ => None,
                };
                self.status = RunStatus::Paused { prior_block };
            },
            EventBody::RunUnpaused => {
                self.status = match self.status {
                    RunStatus::Paused { prior_block: Some(blocked_reason) } => RunStatus::Blocked { blocked_reason },
                    _ => RunStatus::Running,
                };
            },
            EventBody::RunRemoving => {
                self.status = RunStatus::Removing;
            },
            EventBody::RunCompleted { reason, .. } => {
                self.status = RunStatus::Succeeded { reason: *reason };
                self.error = None;
                self.active_api_stages = Vec::new();
                self.active_non_steerable_agent_stages = Vec::new();
            },
            EventBody::RunFailed { reason, error, .. } => {
                self.status = RunStatus::Failed { reason: *reason };
                self.error = Some(error.clone());
                self.active_api_stages = Vec::new();
                self.active_non_steerable_agent_stages = Vec::new();
            },
            EventBody::AgentSessionActivated { steerable, .. } => {
                if *steerable {
                    match (&e.stage_id, &e.session_id) {
                        (Some(stage), Some(session)) => {
                            self.lease_api_stage(stage, session);
                        },
                        _ => {},
                    }
                }
            },
            EventBody::AgentSessionDeactivated => {
                match (&e.stage_id, &e.session_id) {
                    (Some(stage), Some(session)) => {
                        match self.find_api(stage) {
                            Some(i) => {
                                proof {
                                    lemma_lookup_at(self.active_api_stages@, api_entry_key(), i as int);
                                }
                                if str_eq(self.active_api_stages[i].1.as_str(), session.as_str()) {
                                    self.release_api_stage(stage);
                                }
                            },
                            None => {
                                proof {
                                    lemma_lookup_absent(self.active_api_stages@, api_entry_key(), stage_key(*stage));
                                }
                            },
                        }
                    },
                    _ => {},
                }
            },
            EventBody::AgentCliStarted { .. } | EventBody::AgentAcpStarted => {
                match &e.stage_id {
                    Some(stage) => {
                        self.add_non_steerable(stage);
                    },
                    None => {},
                }
            },
            EventBody::AgentCliEnded { termination, .. } => {
                if *termination == CommandTermination::Exited {
                    match &e.stage_id {
                        Some(stage) => {
                            self.remove_non_steerable(stage);
                        },
                        None => {},
                    }
                }
            },
            EventBody::AgentAcpEnded => {
                match &e.stage_id {
                    Some(stage) => {
                        self.remove_non_steerable(stage);
                    },
                    None => {},
                }
            },
            EventBody::StageCompleted { .. } | EventBody::StageFailed { .. } => {
                match &e.stage_id {
                    Some(stage) => {
                        self.release_api_stage(stage);
                        let ghost mid = *self;
                        self.remove_non_steerable(stage);
                        assert forall|k: (Seq<char>, u32)| #[trigger] self.api_session(k) == api_session_after(pre, *e, k) by {
                            assert(self.api_session(k) == mid.api_session(k));
                        }
                    },
                    None => {},
                }
            },
            _ => {},
        }
        proof {
            if e.body is RunCompleted || e.body is RunFailed {
                assert forall|k: (Seq<char>, u32)| #[trigger] self.api_session(k) == api_session_after(pre, *e, k) by {
                    lemma_lookup_absent(self.active_api_stages@, api_entry_key(), k);
                }
                assert forall|k: (Seq<char>, u32)|
                    #[trigger] self.runs_non_steerable(k) == non_steerable_after(pre, *e, k) by {
                    lemma_lookup_absent(self.active_non_steerable_agent_stages@, stage_entry_key(), k);
                }
            }
        }
    }
}

/// The live status of a run follows the same transitions as its stored
/// projection: from the same status, an event the projection accepts leaves
/// both in the same status.
pub proof fn law_live_status_matches_projection(
    live: LiveRunState,
    p: RunProjection,
    e: RunEvent,
    q: RunProjection,
)
    requires
        p.status == Some(live.status),
        applied(p, e, q),
    ensures
        q.status == Some(live_status_after(live.status, e.body)),
{
}

/// A deactivation by a session that no longer holds a stage's lease leaves
/// the newer lease in place.
pub proof fn law_stale_deactivation_keeps_lease(live: LiveRunState, e: RunEvent, holder: Seq<char>)
    requires
        e.body is AgentSessionDeactivated,
        e.stage_id is Some,
        e.session_id matches Some(s) && s@ != holder,
        live.api_session(stage_key(e.stage_id.unwrap())) == Some(holder),
    ensures
        api_session_after(live, e, stage_key(e.stage_id.unwrap())) == Some(holder),
{
}

} // verus!

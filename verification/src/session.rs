//! Agent sessions: their records, turns and events, and the rules the
//! session store applies to them (what a listing shows and in what order,
//! how event sequence numbers are assigned, and how state left running by a
//! server that stopped is recovered).

use vstd::prelude::*;
use crate::ids::{SessionId, TurnId, ulid_decode};
use crate::projection::clone_opt_string;
use crate::sorting::{is_order_of, stable_order, stably_sorted};
use crate::text::{chars_of, lemma_rfind_char, rfind_char, str_eq, string_from_range};

verus! {

/// Agent tool permission level applied to a session.
#[derive(Debug, Clone, Copy, PartialEq, Eq, Structural)]
pub enum PermissionLevel {
    ReadOnly,
    ReadWrite,
    Full,
}

/// A name that is not one of the known ones.
#[derive(Debug, Clone, PartialEq, Eq)]
pub struct UnknownName {
    pub input: String,
}

impl PermissionLevel {
    /// The kebab-case name of the level.
    pub open spec fn name(self) -> Seq<char> {
        match self {
            PermissionLevel::ReadOnly => "read-only"@,
            PermissionLevel::ReadWrite => "read-write"@,
            PermissionLevel::Full => "full"@,
        }
    }

    pub fn as_str(self) -> (s: &'static str)
        ensures
            s@ == self.name(),
    {
        match self {
            PermissionLevel::ReadOnly => "read-only",
            PermissionLevel::ReadWrite => "read-write",
            PermissionLevel::Full => "full",
        }
    }

    pub fn to_string(self) -> (s: String)
        ensures
            s@ == self.name(),
    {
        self.as_str().to_string()
    }

    pub open spec fn parse_spec(s: Seq<char>) -> Option<PermissionLevel> {
        if s == "read-only"@ {
            Some(PermissionLevel::ReadOnly)
        } else if s == "read-write"@ {
            Some(PermissionLevel::ReadWrite)
        } else if s == "full"@ {
            Some(PermissionLevel::Full)
        } else {
            None
        }
    }

    pub fn parse(s: &str) -> (r: Result<PermissionLevel, UnknownName>)
        ensures
            Self::parse_spec(s@) matches Some(x) ==> r == Ok::<PermissionLevel, UnknownName>(x),
            Self::parse_spec(s@) is None ==> (r matches Err(e) && e.input@ == s@),
    {
        if str_eq(s, "read-only") {
            Ok(PermissionLevel::ReadOnly)
        } else if str_eq(s, "read-write") {
            Ok(PermissionLevel::ReadWrite)
        } else if str_eq(s, "full") {
            Ok(PermissionLevel::Full)
        } else {
            Err(UnknownName { input: s.to_string() })
        }
    }
}

impl std::str::FromStr for PermissionLevel {
    type Err = UnknownName;

    fn from_str(s: &str) -> (r: Result<PermissionLevel, UnknownName>)
        ensures
            Self::parse_spec(s@) matches Some(x) ==> r == Ok::<PermissionLevel, UnknownName>(x),
            Self::parse_spec(s@) is None ==> (r matches Err(e) && e.input@ == s@),
    {
        PermissionLevel::parse(s)
    }
}

/// Where a session is in its life.
#[derive(Debug, Clone, Copy, PartialEq, Eq, Structural)]
pub enum SessionStatus {
    Idle,
    Running,
    Failed,
    Closed,
    Deleted,
}

impl SessionStatus {
    /// The snake_case name of the status.
    pub open spec fn name(self) -> Seq<char> {
        match self {
            SessionStatus::Idle => "idle"@,
            SessionStatus::Running => "running"@,
            SessionStatus::Failed => "failed"@,
            SessionStatus::Closed => "closed"@,
            SessionStatus::Deleted => "deleted"@,
        }
    }

    pub fn as_str(self) -> (s: &'static str)
        ensures
            s@ == self.name(),
    {
        match self {
            SessionStatus::Idle => "idle",
            SessionStatus::Running => "running",
            SessionStatus::Failed => "failed",
            SessionStatus::Closed => "closed",
            SessionStatus::Deleted => "deleted",
        }
    }

    pub fn to_string(self) -> (s: String)
        ensures
            s@ == self.name(),
    {
        self.as_str().to_string()
    }

    pub open spec fn parse_spec(s: Seq<char>) -> Option<SessionStatus> {
        if s == "idle"@ {
            Some(SessionStatus::Idle)
        } else if s == "running"@ {
            Some(SessionStatus::Running)
        } else if s == "failed"@ {
            Some(SessionStatus::Failed)
        } else if s == "closed"@ {
            Some(SessionStatus::Closed)
        } else if s == "deleted"@ {
            Some(SessionStatus::Deleted)
        } else {
            None
        }
    }

    pub fn parse(s: &str) -> (r: Result<SessionStatus, UnknownName>)
        ensures
            Self::parse_spec(s@) matches Some(x) ==> r == Ok::<SessionStatus, UnknownName>(x),
            Self::parse_spec(s@) is None ==> (r matches Err(e) && e.input@ == s@),
    {
        if str_eq(s, "idle") {
            Ok(SessionStatus::Idle)
        } else if str_eq(s, "running") {
            Ok(SessionStatus::Running)
        } else if str_eq(s, "failed") {
            Ok(SessionStatus::Failed)
        } else if str_eq(s, "closed") {
            Ok(SessionStatus::Closed)
        } else if str_eq(s, "deleted") {
            Ok(SessionStatus::Deleted)
        } else {
            Err(UnknownName { input: s.to_string() })
        }
    }
}

impl std::str::FromStr for SessionStatus {
    type Err = UnknownName;

    fn from_str(s: &str) -> (r: Result<SessionStatus, UnknownName>)
        ensures
            Self::parse_spec(s@) matches Some(x) ==> r == Ok::<SessionStatus, UnknownName>(x),
            Self::parse_spec(s@) is None ==> (r matches Err(e) && e.input@ == s@),
    {
        SessionStatus::parse(s)
    }
}

/// Where a turn is in its life.
#[derive(Debug, Clone, Copy, PartialEq, Eq, Structural)]
pub enum TurnStatus {
    Running,
    Succeeded,
    Failed,
    Interrupted,
}

impl TurnStatus {
    /// The snake_case name of the status.
    pub open spec fn name(self) -> Seq<char> {
        match self {
            TurnStatus::Running => "running"@,
            TurnStatus::Succeeded => "succeeded"@,
            TurnStatus::Failed => "failed"@,
            TurnStatus::Interrupted => "interrupted"@,
        }
    }

    pub fn as_str(self) -> (s: &'static str)
        ensures
            s@ == self.name(),
    {
        match self {
            TurnStatus::Running => "running",
            TurnStatus::Succeeded => "succeeded",
            TurnStatus::Failed => "failed",
            TurnStatus::Interrupted => "interrupted",
        }
    }

    pub fn to_string(self) -> (s: String)
        ensures
            s@ == self.name(),
    {
        self.as_str().to_string()
    }

    pub open spec fn parse_spec(s: Seq<char>) -> Option<TurnStatus> {
        if s == "running"@ {
            Some(TurnStatus::Running)
        } else if s == "succeeded"@ {
            Some(TurnStatus::Succeeded)
        } else if s == "failed"@ {
            Some(TurnStatus::Failed)
        } else if s == "interrupted"@ {
            Some(TurnStatus::Interrupted)
        } else {
            None
        }
    }

    pub fn parse(s: &str) -> (r: Result<TurnStatus, UnknownName>)
        ensures
            Self::parse_spec(s@) matches Some(x) ==> r == Ok::<TurnStatus, UnknownName>(x),
            Self::parse_spec(s@) is None ==> (r matches Err(e) && e.input@ == s@),
    {
        if str_eq(s, "running") {
            Ok(TurnStatus::Running)
        } else if str_eq(s, "succeeded") {
            Ok(TurnStatus::Succeeded)
        } else if str_eq(s, "failed") {
            Ok(TurnStatus::Failed)
        } else if str_eq(s, "interrupted") {
            Ok(TurnStatus::Interrupted)
        } else {
            Err(UnknownName { input: s.to_string() })
        }
    }
}

impl std::str::FromStr for TurnStatus {
    type Err = UnknownName;

    fn from_str(s: &str) -> (r: Result<TurnStatus, UnknownName>)
        ensures
            Self::parse_spec(s@) matches Some(x) ==> r == Ok::<TurnStatus, UnknownName>(x),
            Self::parse_spec(s@) is None ==> (r matches Err(e) && e.input@ == s@),
    {
        TurnStatus::parse(s)
    }
}

/// Each status name reads back as the status it names.
pub proof fn law_session_names_round_trip(p: PermissionLevel, s: SessionStatus, t: TurnStatus)
    ensures
        PermissionLevel::parse_spec(p.name()) == Some(p),
        SessionStatus::parse_spec(s.name()) == Some(s),
        TurnStatus::parse_spec(t.name()) == Some(t),
{
    reveal_strlit("read-only");
    reveal_strlit("read-write");
    reveal_strlit("full");
    reveal_strlit("idle");
    reveal_strlit("running");
    reveal_strlit("failed");
    reveal_strlit("closed");
    reveal_strlit("deleted");
    reveal_strlit("succeeded");
    reveal_strlit("interrupted");
    assert("read-only"@[5] != "read-write"@[5]);
    assert("read-only"@.len() != "full"@.len());
    assert("read-write"@.len() != "full"@.len());
    assert("idle"@.len() != "running"@.len());
    assert("idle"@.len() != "failed"@.len());
    assert("idle"@.len() != "closed"@.len());
    assert("idle"@.len() != "deleted"@.len());
    assert("running"@.len() != "failed"@.len());
    assert("running"@.len() != "closed"@.len());
    assert("running"@[0] != "deleted"@[0]);
    assert("failed"@[0] != "closed"@[0]);
    assert("failed"@.len() != "deleted"@.len());
    assert("closed"@.len() != "deleted"@.len());
    assert("running"@.len() != "succeeded"@.len());
    assert("running"@.len() != "interrupted"@.len());
    assert("succeeded"@.len() != "failed"@.len());
    assert("succeeded"@.len() != "interrupted"@.len());
    assert("failed"@.len() != "interrupted"@.len());
}

/// One message of a session's runtime context. Timestamps are Unix
/// milliseconds; tool calls, provider parts, usage and tool results are
/// kept as the JSON text they arrived as.
#[derive(Debug, Clone, PartialEq, Eq)]
pub enum SessionMessage {
    User { content: String, timestamp: i64 },
    Assistant {
        content: String,
        tool_calls: Vec<String>,
        provider_parts: Vec<String>,
        usage: String,
        response_id: String,
        timestamp: i64,
    },
    ToolResults { results: Vec<String>, timestamp: i64 },
    System { content: String, timestamp: i64 },
    Steering { content: String, timestamp: i64 },
}

impl SessionMessage {
    pub fn user(content: String, timestamp: i64) -> (m: SessionMessage)
        ensures
            m == (SessionMessage::User { content, timestamp }),
    {
        SessionMessage::User { content, timestamp }
    }

    pub fn system(content: String, timestamp: i64) -> (m: SessionMessage)
        ensures
            m == (SessionMessage::System { content, timestamp }),
    {
        SessionMessage::System { content, timestamp }
    }
}

/// A stored session. Times are Unix milliseconds.
#[derive(Debug, Clone, PartialEq, Eq)]
pub struct SessionRecord {
    pub id: SessionId,
    pub title: Option<String>,
    pub status: SessionStatus,
    pub working_dir: Option<String>,
    pub provider: Option<String>,
    pub model: Option<String>,
    pub permissions: PermissionLevel,
    pub created_at: i64,
    pub updated_at: i64,
    pub deleted_at: Option<i64>,
    pub runtime_context: Vec<SessionMessage>,
}

impl SessionRecord {
    /// A new idle, read-write session with nothing else set.
    pub fn new(id: SessionId, now: i64) -> (r: SessionRecord)
        ensures
            r.id == id,
            r.title is None,
            r.status == SessionStatus::Idle,
            r.working_dir is None,
            r.provider is None,
            r.model is None,
            r.permissions == PermissionLevel::ReadWrite,
            r.created_at == now,
            r.updated_at == now,
            r.deleted_at is None,
            r.runtime_context@.len() == 0,
    {
        SessionRecord {
            id,
            title: None,
            status: SessionStatus::Idle,
            working_dir: None,
            provider: None,
            model: None,
            permissions: PermissionLevel::ReadWrite,
            created_at: now,
            updated_at: now,
            deleted_at: None,
            runtime_context: Vec::new(),
        }
    }

    /// Marks the session deleted at `now`; its record stays.
    pub fn mark_deleted(&mut self, now: i64)
        ensures
            *final(self) == (SessionRecord {
                status: SessionStatus::Deleted,
                updated_at: now,
                deleted_at: Some(now),
                ..*old(self)
            }),
    {
        self.status = SessionStatus::Deleted;
        self.updated_at = now;
        self.deleted_at = Some(now);
    }

    /// Recovers a session left running by a server that stopped: a running
    /// session that is not deleted becomes idle as of `recovered_at`.
    /// Returns whether the session is live, so that its turns are to be
    /// recovered too.
    pub fn recover_stale(&mut self, recovered_at: i64) -> (live: bool)
        ensures
            live == (old(self).deleted_at is None),
            live && old(self).status == SessionStatus::Running ==> *final(self) == (SessionRecord {
                status: SessionStatus::Idle,
                updated_at: recovered_at,
                ..*old(self)
            }),
            !(live && old(self).status == SessionStatus::Running) ==> *final(self) == *old(self),
    {
        if self.deleted_at.is_some() {
            return false;
        }
        if self.status == SessionStatus::Running {
            self.status = SessionStatus::Idle;
            self.updated_at = recovered_at;
        }
        true
    }
}

/// What a reader sees of a stored session: nothing once it is deleted.
pub fn visible_session(record: Option<SessionRecord>) -> (r: Option<SessionRecord>)
    ensures
        r == match record {
            Some(s) => if s.deleted_at is None { Some(s) } else { None },
            None => None,
        },
{
    match record {
        Some(s) => if s.deleted_at.is_none() { Some(s) } else { None },
        None => None,
    }
}

/// The listing view of a session.
#[derive(Debug, Clone, PartialEq, Eq)]
pub struct SessionSummary {
    pub id: SessionId,
    pub title: Option<String>,
    pub status: SessionStatus,
    pub working_dir: Option<String>,
    pub provider: Option<String>,
    pub model: Option<String>,
    pub created_at: i64,
    pub updated_at: i64,
}

/// The summary of a session record.
pub open spec fn summary_of(r: SessionRecord) -> SessionSummary {
    SessionSummary {
        id: r.id,
        title: r.title,
        status: r.status,
        working_dir: r.working_dir,
        provider: r.provider,
        model: r.model,
        created_at: r.created_at,
        updated_at: r.updated_at,
    }
}

impl SessionSummary {
    pub fn from_record(record: &SessionRecord) -> (s: SessionSummary)
        ensures
            s == summary_of(*record),
    {
        SessionSummary {
            id: record.id,
            title: clone_opt_string(&record.title),
            status: record.status,
            working_dir: clone_opt_string(&record.working_dir),
            provider: clone_opt_string(&record.provider),
            model: clone_opt_string(&record.model),
            created_at: record.created_at,
            updated_at: record.updated_at,
        }
    }
}

/// One turn of a session: its input, and its outcome once done. Times are
/// Unix milliseconds.
#[derive(Debug, Clone, PartialEq, Eq)]
pub struct TurnRecord {
    pub id: TurnId,
    pub session_id: SessionId,
    pub input: String,
    pub status: TurnStatus,
    pub output: Option<String>,
    pub error: Option<String>,
    pub created_at: i64,
    pub updated_at: i64,
    pub completed_at: Option<i64>,
}

/// The error recorded on a turn that a server restart cut short.
pub open spec fn interrupted_turn_error() -> Seq<char> {
    "Server restarted before the turn completed."@
}

impl TurnRecord {
    /// A copy with the same contents.
    pub fn duplicate(&self) -> (r: TurnRecord)
        ensures
            r == *self,
    {
        TurnRecord {
            id: self.id,
            session_id: self.session_id,
            input: self.input.clone(),
            status: self.status,
            output: clone_opt_string(&self.output),
            error: clone_opt_string(&self.error),
            created_at: self.created_at,
            updated_at: self.updated_at,
            completed_at: self.completed_at,
        }
    }

    /// Recovers a turn left running by a server that stopped: it becomes
    /// interrupted, completed at `recovered_at`, with an error saying why.
    /// Returns whether the turn changed.
    pub fn recover_stale(&mut self, recovered_at: i64) -> (changed: bool)
        ensures
            changed == (old(self).status == TurnStatus::Running),
            changed ==> {
                &&& final(self).id == old(self).id
                &&& final(self).session_id == old(self).session_id
                &&& final(self).input == old(self).input
                &&& final(self).output == old(self).output
                &&& final(self).created_at == old(self).created_at
                &&& final(self).status == TurnStatus::Interrupted
                &&& final(self).updated_at == recovered_at
                &&& final(self).completed_at == Some(recovered_at)
                &&& final(self).error matches Some(e) && e@ == interrupted_turn_error()
            },
            !changed ==> *final(self) == *old(self),
    {
        if self.status != TurnStatus::Running {
            return false;
        }
        self.status = TurnStatus::Interrupted;
        self.updated_at = recovered_at;
        self.completed_at = Some(recovered_at);
        self.error = Some("Server restarted before the turn completed.".to_string());
        true
    }
}

/// One event of a session's log. `properties` is its JSON payload as text.
#[derive(Debug, Clone, PartialEq, Eq)]
pub struct SessionEventEnvelope {
    pub seq: u32,
    pub session_id: SessionId,
    pub turn_id: Option<TurnId>,
    pub event: String,
    pub properties: String,
    pub ts: i64,
}

impl SessionEventEnvelope {
    /// An event not yet numbered (sequence 0).
    pub fn new(session_id: SessionId, turn_id: Option<TurnId>, event: String, properties: String, ts: i64) -> (e: SessionEventEnvelope)
        ensures
            e == (SessionEventEnvelope { seq: 0, session_id, turn_id, event, properties, ts }),
    {
        SessionEventEnvelope { seq: 0, session_id, turn_id, event, properties, ts }
    }

    /// The same event, numbered `seq`.
    pub fn with_seq(self, seq: u32) -> (e: SessionEventEnvelope)
        ensures
            e == (SessionEventEnvelope { seq, ..self }),
    {
        SessionEventEnvelope { seq, ..self }
    }

    /// A copy with the same contents.
    pub fn duplicate(&self) -> (r: SessionEventEnvelope)
        ensures
            r == *self,
    {
        SessionEventEnvelope {
            seq: self.seq,
            session_id: self.session_id,
            turn_id: self.turn_id,
            event: self.event.clone(),
            properties: self.properties.clone(),
            ts: self.ts,
        }
    }
}

/// The largest of the sequence numbers, or 0.
pub open spec fn max_seq(seqs: Seq<u32>) -> u32
    decreases seqs.len(),
{
    if seqs.len() == 0 {
        0
    } else {
        let m = max_seq(seqs.drop_last());
        if seqs.last() > m {
            seqs.last()
        } else {
            m
        }
    }
}

/// The sequence number of the next event appended to a log whose events
/// carry `seqs`: one past the largest (saturating), and never below 1.
pub fn next_event_seq(seqs: &Vec<u32>) -> (n: u32)
    ensures
        n == if max_seq(seqs@) == u32::MAX { u32::MAX } else { (max_seq(seqs@) + 1) as u32 },
{
    let mut m: u32 = 0;
    let mut i: usize = 0;
    while i < seqs.len()
        invariant
            i <= seqs@.len(),
            m == max_seq(seqs@.take(i as int)),
        decreases seqs.len() - i,
    {
        assert(seqs@.take(i + 1).drop_last() =~= seqs@.take(i as int));
        if seqs[i] > m {
            m = seqs[i];
        }
        i = i + 1;
    }
    assert(seqs@.take(seqs@.len() as int) =~= seqs@);
    let next = if m == u32::MAX { u32::MAX } else { m + 1 };
    if next < 1 { 1 } else { next }
}

/// Sort keys of events: their sequence numbers.
pub open spec fn event_seq_keys(events: Seq<SessionEventEnvelope>) -> Seq<(i128, u128)> {
    events.map_values(|e: SessionEventEnvelope| (e.seq as i128, 0u128))
}

/// The first sequence number a listing asks for: `since_seq`, or 1.
pub open spec fn first_listed_seq(since_seq: Option<u32>) -> u32 {
    match since_seq {
        Some(s) => s,
        None => 1,
    }
}

/// The events numbered at least `start`, in log order.
pub open spec fn events_from(events: Seq<SessionEventEnvelope>, start: u32) -> Seq<SessionEventEnvelope> {
    events.filter(|e: SessionEventEnvelope| e.seq >= start)
}

/// The events of a log from sequence `since_seq` on (from 1 when absent),
/// in sequence order; events with equal numbers keep their log order.
pub fn select_events(events: &Vec<SessionEventEnvelope>, since_seq: Option<u32>) -> (r: Vec<SessionEventEnvelope>)
    ensures
        exists|order: Seq<usize>|
            #![trigger is_order_of(order, events_from(events@, first_listed_seq(since_seq)).len())]
            is_order_of(order, events_from(events@, first_listed_seq(since_seq)).len()) && stably_sorted(
                event_seq_keys(events_from(events@, first_listed_seq(since_seq))),
                order,
            ) && r@.len() == events_from(events@, first_listed_seq(since_seq)).len() && forall|i: int|
                0 <= i < r@.len() ==> #[trigger] r@[i] == events_from(events@, first_listed_seq(since_seq))[order[i] as int],
{
    let start: u32 = match since_seq {
        Some(s) => s,
        None => 1,
    };
    let ghost pred = |e: SessionEventEnvelope| e.seq >= start;
    let mut kept: Vec<usize> = Vec::new();
    let ghost mut kept_view: Seq<SessionEventEnvelope> = Seq::empty();
    let mut i: usize = 0;
    while i < events.len()
        invariant
            i <= events@.len(),
            pred == (|e: SessionEventEnvelope| e.seq >= start),
            kept_view == events@.take(i as int).filter(pred),
            kept@.len() == kept_view.len(),
            forall|t: int| 0 <= t < kept@.len() ==> #[trigger] kept@[t] < events@.len() && kept_view[t] == events@[kept@[t] as int],
        decreases events.len() - i,
    {
        proof {
            reveal(Seq::filter);
            assert(events@.take(i + 1).drop_last() =~= events@.take(i as int));
        }
        if events[i].seq >= start {
            kept.push(i);
            proof {
                kept_view = kept_view.push(events@[i as int]);
            }
        }
        i = i + 1;
    }
    proof {
        assert(events@.take(events@.len() as int) =~= events@);
    }
    let mut keys: Vec<(i128, u128)> = Vec::new();
    let mut j: usize = 0;
    while j < kept.len()
        invariant
            j <= kept@.len(),
            kept@.len() == kept_view.len(),
            forall|t: int| 0 <= t < kept@.len() ==> #[trigger] kept@[t] < events@.len() && kept_view[t] == events@[kept@[t] as int],
            keys@.len() == j,
            forall|t: int| 0 <= t < j ==> #[trigger] keys@[t] == (kept_view[t].seq as i128, 0u128),
        decreases kept.len() - j,
    {
        keys.push((events[kept[j]].seq as i128, 0u128));
        j = j + 1;
    }
    assert(keys@ =~= event_seq_keys(kept_view));
    let order = stable_order(&keys);
    let mut r: Vec<SessionEventEnvelope> = Vec::new();
    let mut k: usize = 0;
    while k < order.len()
        invariant
            k <= order@.len(),
            is_order_of(order@, kept_view.len()),
            kept@.len() == kept_view.len(),
            forall|t: int| 0 <= t < kept@.len() ==> #[trigger] kept@[t] < events@.len() && kept_view[t] == events@[kept@[t] as int],
            r@.len() == k,
            forall|t: int| 0 <= t < k ==> #[trigger] r@[t] == kept_view[order@[t] as int],
        decreases order.len() - k,
    {
        let pos = order[k];
        assert(pos < kept_view.len());
        r.push(events[kept[pos]].duplicate());
        k = k + 1;
    }
    proof {
        let kept_spec = events_from(events@, first_listed_seq(since_seq));
        assert(kept_view == kept_spec);
        assert(is_order_of(order@, kept_spec.len()));
        assert(stably_sorted(event_seq_keys(kept_spec), order@));
        assert(forall|i: int| 0 <= i < r@.len() ==> #[trigger] r@[i] == kept_spec[order@[i] as int]);
    }
    r
}

/// Sessions that are not deleted, in stored order.
pub open spec fn live_sessions(records: Seq<SessionRecord>) -> Seq<SessionRecord> {
    records.filter(|r: SessionRecord| r.deleted_at is None)
}

/// Sort keys of sessions: most recently updated first, then by id.
pub open spec fn session_keys(records: Seq<SessionRecord>) -> Seq<(i128, u128)> {
    records.map_values(|r: SessionRecord| ((0 - r.updated_at) as i128, r.id.value()))
}

/// The listing of stored sessions: the summaries of those not deleted,
/// most recently updated first, ties by ascending id.
pub fn list_session_summaries(records: &Vec<SessionRecord>) -> (r: Vec<SessionSummary>)
    ensures
        exists|order: Seq<usize>|
            #![trigger is_order_of(order, live_sessions(records@).len())]
            is_order_of(order, live_sessions(records@).len()) && stably_sorted(
                session_keys(live_sessions(records@)),
                order,
            ) && r@.len() == live_sessions(records@).len() && forall|i: int|
                0 <= i < r@.len() ==> #[trigger] r@[i] == summary_of(live_sessions(records@)[order[i] as int]),
{
    let ghost pred = |r: SessionRecord| r.deleted_at is None;
    let mut kept: Vec<usize> = Vec::new();
    let ghost mut kept_view: Seq<SessionRecord> = Seq::empty();
    let mut i: usize = 0;
    while i < records.len()
        invariant
            i <= records@.len(),
            pred == (|r: SessionRecord| r.deleted_at is None),
            kept_view == records@.take(i as int).filter(pred),
            kept@.len() == kept_view.len(),
            forall|t: int| 0 <= t < kept@.len() ==> #[trigger] kept@[t] < records@.len() && kept_view[t] == records@[kept@[t] as int],
        decreases records.len() - i,
    {
        proof {
            reveal(Seq::filter);
            assert(records@.take(i + 1).drop_last() =~= records@.take(i as int));
        }
        if records[i].deleted_at.is_none() {
            kept.push(i);
            proof {
                kept_view = kept_view.push(records@[i as int]);
            }
        }
        i = i + 1;
    }
    proof {
        assert(records@.take(records@.len() as int) =~= records@);
    }
    let mut keys: Vec<(i128, u128)> = Vec::new();
    let mut j: usize = 0;
    while j < kept.len()
        invariant
            j <= kept@.len(),
            kept@.len() == kept_view.len(),
            forall|t: int| 0 <= t < kept@.len() ==> #[trigger] kept@[t] < records@.len() && kept_view[t] == records@[kept@[t] as int],
            keys@.len() == j,
            forall|t: int| 0 <= t < j ==> #[trigger] keys@[t] == ((0 - kept_view[t].updated_at) as i128, kept_view[t].id.value()),
        decreases kept.len() - j,
    {
        let rec = &records[kept[j]];
        keys.push((0i128 - (rec.updated_at as i128), rec.id.as_u128()));
        j = j + 1;
    }
    assert(keys@ =~= session_keys(kept_view));
    let order = stable_order(&keys);
    let mut r: Vec<SessionSummary> = Vec::new();
    let mut k: usize = 0;
    while k < order.len()
        invariant
            k <= order@.len(),
            is_order_of(order@, kept_view.len()),
            kept@.len() == kept_view.len(),
            forall|t: int| 0 <= t < kept@.len() ==> #[trigger] kept@[t] < records@.len() && kept_view[t] == records@[kept@[t] as int],
            r@.len() == k,
            forall|t: int| 0 <= t < k ==> #[trigger] r@[t] == summary_of(kept_view[order@[t] as int]),
        decreases order.len() - k,
    {
        let pos = order[k];
        assert(pos < kept_view.len());
        r.push(SessionSummary::from_record(&records[kept[pos]]));
        k = k + 1;
    }
    proof {
        let kept_spec = live_sessions(records@);
        assert(kept_view == kept_spec);
        assert(is_order_of(order@, kept_spec.len()));
        assert(stably_sorted(session_keys(kept_spec), order@));
        assert(forall|i: int| 0 <= i < r@.len() ==> #[trigger] r@[i] == summary_of(kept_spec[order@[i] as int]));
    }
    r
}

/// Sort keys of turns: their creation times.
pub open spec fn turn_keys(turns: Seq<TurnRecord>) -> Seq<(i128, u128)> {
    turns.map_values(|t: TurnRecord| (t.created_at as i128, 0u128))
}

/// The turns of a session in creation order; turns created at the same
/// moment keep their stored order.
pub fn order_turns(turns: &Vec<TurnRecord>) -> (r: Vec<TurnRecord>)
    ensures
        exists|order: Seq<usize>|
            #![trigger is_order_of(order, turns@.len())]
            is_order_of(order, turns@.len()) && stably_sorted(turn_keys(turns@), order) && r@.len() == turns@.len()
                && forall|i: int| 0 <= i < r@.len() ==> #[trigger] r@[i] == turns@[order[i] as int],
{
    let mut keys: Vec<(i128, u128)> = Vec::new();
    let mut j: usize = 0;
    while j < turns.len()
        invariant
            j <= turns@.len(),
            keys@.len() == j,
            forall|t: int| 0 <= t < j ==> #[trigger] keys@[t] == (turns@[t].created_at as i128, 0u128),
        decreases turns.len() - j,
    {
        keys.push((turns[j].created_at as i128, 0u128));
        j = j + 1;
    }
    assert(keys@ =~= turn_keys(turns@));
    let order = stable_order(&keys);
    let mut r: Vec<TurnRecord> = Vec::new();
    let mut k: usize = 0;
    while k < order.len()
        invariant
            k <= order@.len(),
            is_order_of(order@, turns@.len()),
            r@.len() == k,
            forall|t: int| 0 <= t < k ==> #[trigger] r@[t] == turns@[order@[t] as int],
        decreases order.len() - k,
    {
        let pos = order[k];
        r.push(turns[pos].duplicate());
        k = k + 1;
    }
    r
}

/// `c` is `lower` or its ASCII upper-case form.
pub open spec fn ascii_ci_eq(c: char, lower: char) -> bool {
    c == lower || c as int == lower as int - 32
}

/// The stem of a file name whose extension is `json` in any ASCII case:
/// the part before the last dot, which must not be the first character.
pub open spec fn json_file_stem(name: Seq<char>) -> Option<Seq<char>> {
    let i = rfind_char(name, '.');
    if i > 0 && name.len() == i + 5 && ascii_ci_eq(name[i + 1], 'j') && ascii_ci_eq(name[i + 2], 's')
        && ascii_ci_eq(name[i + 3], 'o') && ascii_ci_eq(name[i + 4], 'n') {
        Some(name.subrange(0, i))
    } else {
        None
    }
}

fn char_ci_eq(c: char, lower: char) -> (b: bool)
    requires
        'a' <= lower <= 'z',
    ensures
        b == ascii_ci_eq(c, lower),
{
    c == lower || (c as u32) + 32 == (lower as u32)
}

/// The turn a file in a session's turn directory holds: `<turn id>.json`.
pub fn turn_file_id(file_name: &str) -> (r: Option<TurnId>)
    ensures
        match json_file_stem(file_name@) {
            Some(stem) => match ulid_decode(stem) {
                Some(v) => r matches Some(id) && id.value() == v,
                None => r is None,
            },
            None => r is None,
        },
{
    let v = chars_of(file_name);
    let n = v.len();
    let mut i: usize = n;
    while i > 0 && v[i - 1] != '.'
        invariant
            i <= n == v@.len(),
            forall|j: int| i <= j < n ==> v@[j] != '.',
        decreases i,
    {
        i = i - 1;
    }
    proof {
        lemma_rfind_char(v@, '.');
        let k = rfind_char(v@, '.');
        if i > 0 {
            assert(v@[i - 1] == '.');
            assert(k == i - 1) by {
                if k < i - 1 {
                    assert(v@[i - 1] != '.');
                }
            }
        } else {
            assert(k < 0) by {
                if k >= 0 {
                    assert(v@[k] != '.');
                }
            }
        }
    }
    if i < 2 {
        return None;
    }
    let dot = i - 1;
    if n - dot != 5 || !char_ci_eq(v[dot + 1], 'j') || !char_ci_eq(v[dot + 2], 's') || !char_ci_eq(v[dot + 3], 'o')
        || !char_ci_eq(v[dot + 4], 'n') {
        return None;
    }
    let stem = string_from_range(&v, 0, dot);
    match TurnId::parse(stem.as_str()) {
        Ok(id) => Some(id),
        Err(_) => None,
    }
}

} // verus!

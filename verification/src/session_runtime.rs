//! The server's live state of agent sessions: at most one running turn per
//! session, interrupts that reach the turn they name (also when asked for
//! before the turn could be cancelled), and unloading of idle sessions.
//! The agent session itself, its locks and cancellation handles are held
//! by the caller; these functions decide what happens to them.

use vstd::prelude::*;
use crate::ids::{SessionId, TurnId};
use crate::keyed::{keys_unique, lookup, lemma_lookup_at, lemma_lookup_absent, lemma_lookup_found,
    lemma_lookup_push, lemma_lookup_remove, lemma_lookup_update};

verus! {

/// The turn a session is running: its id, whether the turn's cancellation
/// handle is attached, and whether an interrupt was asked for.
#[derive(Debug, Clone, Copy, PartialEq, Eq, Structural)]
pub struct ActiveTurn {
    pub turn_id: TurnId,
    pub cancel_attached: bool,
    pub interrupt_requested: bool,
}

/// What the server holds for one session: whether its agent session was
/// initialized, and the turn it is running, if any.
#[derive(Debug, Clone, Copy, PartialEq, Eq, Structural)]
pub struct SessionRuntimeEntry {
    pub initialized: bool,
    pub active_turn: Option<ActiveTurn>,
}

/// A turn could not start: the session is running one already.
#[derive(Debug, Clone, Copy, PartialEq, Eq, Structural)]
pub enum StartTurnError {
    ActiveTurn,
}

/// An interrupt names a turn the session is not running.
#[derive(Debug, Clone, Copy, PartialEq, Eq, Structural)]
pub enum InterruptTurnError {
    NotActive,
}

/// A session entry as first created: not initialized, no turn.
pub open spec fn fresh_entry() -> SessionRuntimeEntry {
    SessionRuntimeEntry { initialized: false, active_turn: None }
}

/// Whether the session runs the turn `turn_id`.
pub open spec fn runs_turn(e: SessionRuntimeEntry, turn_id: TurnId) -> bool {
    e.active_turn matches Some(a) && a.turn_id == turn_id
}

/// The entry once the turn `turn_id` has started.
pub open spec fn reserved(e: SessionRuntimeEntry, turn_id: TurnId) -> SessionRuntimeEntry {
    SessionRuntimeEntry {
        active_turn: Some(ActiveTurn { turn_id, cancel_attached: false, interrupt_requested: false }),
        ..e
    }
}

/// The entry once an interrupt of `turn_id` is recorded (no change when the
/// session does not run that turn).
pub open spec fn interrupt_marked(e: SessionRuntimeEntry, turn_id: TurnId) -> SessionRuntimeEntry {
    match e.active_turn {
        Some(a) => if a.turn_id == turn_id {
            SessionRuntimeEntry { active_turn: Some(ActiveTurn { interrupt_requested: true, ..a }), ..e }
        } else {
            e
        },
        None => e,
    }
}

/// The entry once the cancellation handle of `turn_id` is attached (no
/// change when the session does not run that turn).
pub open spec fn cancel_attached(e: SessionRuntimeEntry, turn_id: TurnId) -> SessionRuntimeEntry {
    match e.active_turn {
        Some(a) => if a.turn_id == turn_id {
            SessionRuntimeEntry { active_turn: Some(ActiveTurn { cancel_attached: true, ..a }), ..e }
        } else {
            e
        },
        None => e,
    }
}

/// The entry once the turn `turn_id` has ended (no change when the session
/// runs another turn).
pub open spec fn turn_ended(e: SessionRuntimeEntry, turn_id: TurnId) -> SessionRuntimeEntry {
    if runs_turn(e, turn_id) {
        SessionRuntimeEntry { active_turn: None, ..e }
    } else {
        e
    }
}

/// The key of a session entry.
pub open spec fn session_key() -> spec_fn((SessionId, SessionRuntimeEntry)) -> SessionId {
    |p: (SessionId, SessionRuntimeEntry)| p.0
}

/// The sessions the server holds live state for.
#[derive(Debug, Clone)]
pub struct SessionRuntimeManager {
    pub entries: Vec<(SessionId, SessionRuntimeEntry)>,
}

impl SessionRuntimeManager {
    /// No session is listed twice.
    pub open spec fn wf(&self) -> bool {
        keys_unique(self.entries@, session_key())
    }

    /// The live state of a session, if the server holds one.
    pub open spec fn entry_of(&self, session_id: SessionId) -> Option<SessionRuntimeEntry> {
        match lookup(self.entries@, session_key(), session_id) {
            Some(p) => Some(p.1),
            None => None,
        }
    }

    /// The live state of a session, a fresh one when the server holds none.
    pub open spec fn entry_or_fresh(&self, session_id: SessionId) -> SessionRuntimeEntry {
        match self.entry_of(session_id) {
            Some(e) => e,
            None => fresh_entry(),
        }
    }

    /// Only the entry of `session_id` may differ between the two.
    pub open spec fn same_except(&self, other: &SessionRuntimeManager, session_id: SessionId) -> bool {
        forall|s: SessionId| s != session_id ==> #[trigger] self.entry_of(s) == other.entry_of(s)
    }

    pub fn new() -> (m: SessionRuntimeManager)
        ensures
            m.wf(),
            forall|s: SessionId| #[trigger] m.entry_of(s) is None,
    {
        let m = SessionRuntimeManager { entries: Vec::new() };
        proof {
            assert forall|s: SessionId| #[trigger] m.entry_of(s) is None by {
                lemma_lookup_absent(m.entries@, session_key(), s);
            }
        }
        m
    }

    fn find(&self, session_id: SessionId) -> (r: Option<usize>)
        requires
            self.wf(),
        ensures
            r matches Some(i) ==> i < self.entries@.len() && self.entries@[i as int].0 == session_id
                && self.entry_of(session_id) == Some(self.entries@[i as int].1),
            r is None ==> self.entry_of(session_id) is None,
    {
        let mut i: usize = 0;
        while i < self.entries.len()
            invariant
                self.wf(),
                i <= self.entries@.len(),
                forall|k: int| 0 <= k < i ==> (#[trigger] self.entries@[k]).0 != session_id,
            decreases self.entries.len() - i,
        {
            if self.entries[i].0 == session_id {
                proof {
                    lemma_lookup_at(self.entries@, session_key(), i as int);
                }
                return Some(i);
            }
            i = i + 1;
        }
        proof {
            lemma_lookup_absent(self.entries@, session_key(), session_id);
        }
        None
    }

    /// Replaces (or adds) the entry of a session.
    fn put(&mut self, session_id: SessionId, entry: SessionRuntimeEntry)
        requires
            old(self).wf(),
        ensures
            final(self).wf(),
            final(self).entry_of(session_id) == Some(entry),
            final(self).same_except(&*old(self), session_id),
    {
        let ghost before = self.entries@;
        match self.find(session_id) {
            Some(i) => {
                self.entries.set(i, (session_id, entry));
                proof {
                    lemma_lookup_update(before, session_key(), i as int, (session_id, entry));
                    assert(self.entries@ == before.update(i as int, (session_id, entry)));
                }
            },
            None => {
                proof {
                    lemma_lookup_found(before, session_key(), session_id);
                    lemma_lookup_push(before, session_key(), (session_id, entry));
                }
                self.entries.push((session_id, entry));
            },
        }
    }

    /// Whether the session is running a turn.
    pub fn has_active_turn(&self, session_id: SessionId) -> (b: bool)
        requires
            self.wf(),
        ensures
            b == (self.entry_of(session_id) matches Some(e) && e.active_turn is Some),
    {
        match self.find(session_id) {
            Some(i) => self.entries[i].1.active_turn.is_some(),
            None => false,
        }
    }

    /// Starts the turn `turn_id` of a session (creating the session's entry
    /// when there is none), unless it is running a turn already.
    pub fn reserve_turn(&mut self, session_id: SessionId, turn_id: TurnId) -> (r: Result<(), StartTurnError>)
        requires
            old(self).wf(),
        ensures
            final(self).wf(),
            final(self).same_except(&*old(self), session_id),
            (r is Ok) == (old(self).entry_or_fresh(session_id).active_turn is None),
            r is Ok ==> final(self).entry_of(session_id) == Some(reserved(old(self).entry_or_fresh(session_id), turn_id)),
            r is Err ==> final(self).entry_of(session_id) == old(self).entry_of(session_id),
    {
        let entry = match self.find(session_id) {
            Some(i) => self.entries[i].1,
            None => SessionRuntimeEntry { initialized: false, active_turn: None },
        };
        if entry.active_turn.is_some() {
            return Err(StartTurnError::ActiveTurn);
        }
        self.put(
            session_id,
            SessionRuntimeEntry {
                active_turn: Some(ActiveTurn { turn_id, cancel_attached: false, interrupt_requested: false }),
                ..entry
            },
        );
        Ok(())
    }

    /// Checks that an interrupt names the turn the session is running.
    pub fn request_interrupt(&self, session_id: SessionId, turn_id: TurnId) -> (r: Result<(), InterruptTurnError>)
        requires
            self.wf(),
        ensures
            (r is Ok) == (self.entry_of(session_id) matches Some(e) && runs_turn(e, turn_id)),
    {
        match self.find(session_id) {
            Some(i) => match self.entries[i].1.active_turn {
                Some(a) => if a.turn_id == turn_id {
                    Ok(())
                } else {
                    Err(InterruptTurnError::NotActive)
                },
                None => Err(InterruptTurnError::NotActive),
            },
            None => Err(InterruptTurnError::NotActive),
        }
    }

    /// Records an interrupt of the turn: the turn is to stop. Returns
    /// whether its cancellation handle is attached, so is to be cancelled
    /// now (otherwise attaching it cancels it).
    pub fn cancel_turn(&mut self, session_id: SessionId, turn_id: TurnId) -> (cancel_now: bool)
        requires
            old(self).wf(),
        ensures
            final(self).wf(),
            final(self).same_except(&*old(self), session_id),
            final(self).entry_of(session_id) == match old(self).entry_of(session_id) {
                Some(e) => Some(interrupt_marked(e, turn_id)),
                None => None,
            },
            cancel_now == (old(self).entry_of(session_id) matches Some(e) && e.active_turn matches Some(a)
                && a.turn_id == turn_id && a.cancel_attached),
    {
        match self.find(session_id) {
            Some(i) => {
                let entry = self.entries[i].1;
                match entry.active_turn {
                    Some(a) => {
                        if a.turn_id == turn_id {
                            self.put(
                                session_id,
                                SessionRuntimeEntry {
                                    active_turn: Some(ActiveTurn { interrupt_requested: true, ..a }),
                                    ..entry
                                },
                            );
                            a.cancel_attached
                        } else {
                            false
                        }
                    },
                    None => false,
                }
            },
            None => false,
        }
    }

    /// Attaches the cancellation handle of the running turn. Returns whether
    /// an interrupt was already asked for, so the handle is to be cancelled
    /// at once; false (and nothing changes) when the session no longer runs
    /// that turn.
    pub fn attach_cancel_token(&mut self, session_id: SessionId, turn_id: TurnId) -> (cancel_now: bool)
        requires
            old(self).wf(),
        ensures
            final(self).wf(),
            final(self).same_except(&*old(self), session_id),
            final(self).entry_of(session_id) == match old(self).entry_of(session_id) {
                Some(e) => Some(cancel_attached(e, turn_id)),
                None => None,
            },
            cancel_now == (old(self).entry_of(session_id) matches Some(e) && e.active_turn matches Some(a)
                && a.turn_id == turn_id && a.interrupt_requested),
    {
        match self.find(session_id) {
            Some(i) => {
                let entry = self.entries[i].1;
                match entry.active_turn {
                    Some(a) => {
                        if a.turn_id == turn_id {
                            self.put(
                                session_id,
                                SessionRuntimeEntry {
                                    active_turn: Some(ActiveTurn { cancel_attached: true, ..a }),
                                    ..entry
                                },
                            );
                            a.interrupt_requested
                        } else {
                            false
                        }
                    },
                    None => false,
                }
            },
            None => false,
        }
    }

    /// Whether an interrupt of the running turn was asked for.
    pub fn interrupt_requested(&self, session_id: SessionId, turn_id: TurnId) -> (b: bool)
        requires
            self.wf(),
        ensures
            b == (self.entry_of(session_id) matches Some(e) && e.active_turn matches Some(a)
                && a.turn_id == turn_id && a.interrupt_requested),
    {
        match self.find(session_id) {
            Some(i) => match self.entries[i].1.active_turn {
                Some(a) => a.turn_id == turn_id && a.interrupt_requested,
                None => false,
            },
            None => false,
        }
    }

    /// Ends the turn `turn_id`: the session is free for another one. A
    /// session running another turn keeps it.
    pub fn end_turn(&mut self, session_id: SessionId, turn_id: TurnId)
        requires
            old(self).wf(),
        ensures
            final(self).wf(),
            final(self).same_except(&*old(self), session_id),
            final(self).entry_of(session_id) == match old(self).entry_of(session_id) {
                Some(e) => Some(turn_ended(e, turn_id)),
                None => None,
            },
    {
        match self.find(session_id) {
            Some(i) => {
                let entry = self.entries[i].1;
                match entry.active_turn {
                    Some(a) => {
                        if a.turn_id == turn_id {
                            self.put(session_id, SessionRuntimeEntry { active_turn: None, ..entry });
                        }
                    },
                    None => {},
                }
            },
            None => {},
        }
    }

    /// Unloads an idle session: its live state is forgotten (the caller
    /// then drops its agent session). A session running a turn stays, and
    /// the answer is false; true otherwise.
    pub fn unload_idle(&mut self, session_id: SessionId) -> (unloaded: bool)
        requires
            old(self).wf(),
        ensures
            final(self).wf(),
            final(self).same_except(&*old(self), session_id),
            unloaded == !(old(self).entry_of(session_id) matches Some(e) && e.active_turn is Some),
            unloaded ==> final(self).entry_of(session_id) is None,
            !unloaded ==> final(self).entry_of(session_id) == old(self).entry_of(session_id),
    {
        match self.find(session_id) {
            Some(i) => {
                if self.entries[i].1.active_turn.is_some() {
                    return false;
                }
                let ghost before = self.entries@;
                self.entries.remove(i);
                proof {
                    lemma_lookup_remove(before, session_key(), i as int);
                }
                true
            },
            None => true,
        }
    }

    /// Whether the session's agent session was initialized.
    pub fn is_initialized(&self, session_id: SessionId) -> (b: bool)
        requires
            self.wf(),
        ensures
            b == self.entry_or_fresh(session_id).initialized,
    {
        match self.find(session_id) {
            Some(i) => self.entries[i].1.initialized,
            None => false,
        }
    }

    /// Records that the session's agent session is initialized.
    pub fn mark_initialized(&mut self, session_id: SessionId)
        requires
            old(self).wf(),
        ensures
            final(self).wf(),
            final(self).same_except(&*old(self), session_id),
            final(self).entry_of(session_id) == Some(
                SessionRuntimeEntry { initialized: true, ..old(self).entry_or_fresh(session_id) },
            ),
    {
        let entry = match self.find(session_id) {
            Some(i) => self.entries[i].1,
            None => SessionRuntimeEntry { initialized: false, active_turn: None },
        };
        self.put(session_id, SessionRuntimeEntry { initialized: true, ..entry });
    }

    /// Drops the session's agent session: it is to be initialized again.
    pub fn clear_session(&mut self, session_id: SessionId)
        requires
            old(self).wf(),
        ensures
            final(self).wf(),
            final(self).same_except(&*old(self), session_id),
            final(self).entry_of(session_id) == match old(self).entry_of(session_id) {
                Some(e) => Some(SessionRuntimeEntry { initialized: false, ..e }),
                None => None,
            },
    {
        match self.find(session_id) {
            Some(i) => {
                let entry = self.entries[i].1;
                self.put(session_id, SessionRuntimeEntry { initialized: false, ..entry });
            },
            None => {},
        }
    }
}

/// One turn at a time: once a turn has started, no other turn of the
/// session starts until it ends.
pub proof fn law_one_turn_at_a_time(e: SessionRuntimeEntry, first: TurnId, second: TurnId)
    ensures
        reserved(e, first).active_turn is Some,
        turn_ended(reserved(e, first), first).active_turn is None,
        second != first ==> turn_ended(reserved(e, first), second) == reserved(e, first),
{
}

/// No interrupt is lost: one asked for before the turn's cancellation
/// handle is attached cancels the turn when the handle is attached, and
/// one asked for after it cancels the turn at once.
pub proof fn law_interrupt_reaches_the_turn(e: SessionRuntimeEntry, turn_id: TurnId)
    requires
        e.active_turn matches Some(a) && a.turn_id == turn_id,
    ensures
        interrupt_marked(e, turn_id).active_turn matches Some(a) && a.interrupt_requested,
        cancel_attached(interrupt_marked(e, turn_id), turn_id).active_turn matches Some(a)
            && a.interrupt_requested && a.cancel_attached,
        interrupt_marked(cancel_attached(e, turn_id), turn_id).active_turn matches Some(a)
            && a.interrupt_requested && a.cancel_attached,
{
}

/// An interrupt or an end that names another turn changes nothing.
pub proof fn law_other_turns_untouched(e: SessionRuntimeEntry, turn_id: TurnId)
    requires
        !runs_turn(e, turn_id),
    ensures
        interrupt_marked(e, turn_id) == e,
        cancel_attached(e, turn_id) == e,
        turn_ended(e, turn_id) == e,
{
}

} // verus!

//! Handing interview answers to a running run: each question is answered
//! at most once. A claim on a question is taken before its answer is sent
//! and given back when sending fails; the run's events settle claims.

use vstd::prelude::*;
use crate::reducer::EventBody;
use crate::text::str_eq;

verus! {

/// The questions of a run whose answers have been taken for delivery.
#[derive(Debug, Clone)]
pub struct AnswerClaims {
    pub accepted: Vec<String>,
}

/// Why an answer could not be handed to a run.
#[derive(Debug, Clone, Copy, PartialEq, Eq, Structural)]
pub enum AnswerDeliveryError {
    /// The server holds no such run.
    RunNotFound,
    /// The run takes no answers now, or the question was already answered.
    AlreadyAnswered,
    /// The run did not take the answer.
    DeliveryFailed,
}

impl AnswerDeliveryError {
    pub open spec fn status_spec(self) -> u16 {
        match self {
            AnswerDeliveryError::RunNotFound => 404,
            AnswerDeliveryError::AlreadyAnswered => 409,
            AnswerDeliveryError::DeliveryFailed => 503,
        }
    }

    pub open spec fn message_spec(self) -> Seq<char> {
        match self {
            AnswerDeliveryError::RunNotFound => "Run not found."@,
            AnswerDeliveryError::AlreadyAnswered => "Question no longer exists or was already answered."@,
            AnswerDeliveryError::DeliveryFailed => "Failed to deliver answer to the active run."@,
        }
    }

    /// The HTTP status the error is answered with.
    pub fn status(self) -> (s: u16)
        ensures
            s == self.status_spec(),
    {
        match self {
            AnswerDeliveryError::RunNotFound => 404,
            AnswerDeliveryError::AlreadyAnswered => 409,
            AnswerDeliveryError::DeliveryFailed => 503,
        }
    }

    /// The message the error is answered with.
    pub fn message(self) -> (s: String)
        ensures
            s@ == self.message_spec(),
    {
        match self {
            AnswerDeliveryError::RunNotFound => "Run not found.".to_string(),
            AnswerDeliveryError::AlreadyAnswered => "Question no longer exists or was already answered.".to_string(),
            AnswerDeliveryError::DeliveryFailed => "Failed to deliver answer to the active run.".to_string(),
        }
    }
}

impl AnswerClaims {
    /// The claimed question ids.
    pub open spec fn claimed(&self) -> Set<Seq<char>> {
        Set::new(|q: Seq<char>| exists|i: int| 0 <= i < self.accepted@.len() && (#[trigger] self.accepted@[i])@ == q)
    }

    /// No question is listed twice.
    pub open spec fn wf(&self) -> bool {
        forall|i: int, j: int|
            0 <= i < self.accepted@.len() && 0 <= j < self.accepted@.len() && i != j ==> (
            #[trigger] self.accepted@[i])@ != (#[trigger] self.accepted@[j])@
    }

    /// No claims.
    pub fn new() -> (c: AnswerClaims)
        ensures
            c.wf(),
            c.claimed() == Set::<Seq<char>>::empty(),
    {
        let c = AnswerClaims { accepted: Vec::new() };
        proof {
            assert(c.claimed() =~= Set::<Seq<char>>::empty());
        }
        c
    }

    fn position(&self, qid: &str) -> (r: Option<usize>)
        ensures
            r matches Some(i) ==> i < self.accepted@.len() && self.accepted@[i as int]@ == qid@,
            r is None ==> !self.claimed().contains(qid@),
    {
        let mut i: usize = 0;
        while i < self.accepted.len()
            invariant
                i <= self.accepted@.len(),
                forall|k: int| 0 <= k < i ==> (#[trigger] self.accepted@[k])@ != qid@,
            decreases self.accepted.len() - i,
        {
            if str_eq(self.accepted[i].as_str(), qid) {
                return Some(i);
            }
            i = i + 1;
        }
        None
    }

    /// Takes the claim on a question before its answer is sent. Refused
    /// when the run takes no answers (it has no answer channel) or the
    /// question is already claimed.
    pub fn claim(&mut self, qid: &str, has_transport: bool) -> (r: Result<(), AnswerDeliveryError>)
        requires
            old(self).wf(),
        ensures
            final(self).wf(),
            (r is Ok) == claim_accepted(old(self).claimed(), qid@, has_transport),
            r is Ok ==> final(self).claimed() == old(self).claimed().insert(qid@),
            r is Err ==> r == Err::<(), AnswerDeliveryError>(AnswerDeliveryError::AlreadyAnswered)
                && final(self).claimed() == old(self).claimed(),
    {
        if !has_transport {
            return Err(AnswerDeliveryError::AlreadyAnswered);
        }
        match self.position(qid) {
            Some(i) => {
                proof {
                    assert(self.claimed().contains(qid@)) by {
                        assert(self.accepted@[i as int]@ == qid@);
                    }
                }
                Err(AnswerDeliveryError::AlreadyAnswered)
            },
            None => {
                let ghost before = self.accepted@;
                let ghost old_claims = self.claimed();
                self.accepted.push(qid.to_string());
                proof {
                    let after = self.accepted@;
                    assert forall|a: int, b: int|
                        0 <= a < after.len() && 0 <= b < after.len() && a != b implies (
                        #[trigger] after[a])@ != (#[trigger] after[b])@ by {
                        if a < before.len() && b < before.len() {
                            assert(after[a] == before[a]);
                            assert(after[b] == before[b]);
                        } else if a < before.len() {
                            assert(after[a] == before[a]);
                            assert(old_claims.contains(before[a]@));
                        } else {
                            assert(after[b] == before[b]);
                            assert(old_claims.contains(before[b]@));
                        }
                    }
                    assert forall|q: Seq<char>| #[trigger] self.claimed().contains(q) == old_claims.insert(qid@).contains(q) by {
                        if self.claimed().contains(q) {
                            let k = choose|k: int| 0 <= k < after.len() && (#[trigger] after[k])@ == q;
                            if k < before.len() {
                                assert(after[k] == before[k]);
                            }
                        }
                        if old_claims.contains(q) {
                            let k = choose|k: int| 0 <= k < before.len() && (#[trigger] before[k])@ == q;
                            assert(after[k] == before[k]);
                        }
                        if q == qid@ {
                            assert(after[before.len() as int]@ == qid@);
                        }
                    }
                    assert(self.claimed() =~= old_claims.insert(qid@));
                }
                Ok(())
            },
        }
    }

    /// Gives back the claim on a question.
    pub fn release(&mut self, qid: &str)
        requires
            old(self).wf(),
        ensures
            final(self).wf(),
            final(self).claimed() == old(self).claimed().remove(qid@),
    {
        let ghost old_claims = self.claimed();
        match self.position(qid) {
            Some(i) => {
                let ghost before = self.accepted@;
                self.accepted.remove(i);
                proof {
                    let after = self.accepted@;
                    assert forall|a: int, b: int|
                        0 <= a < after.len() && 0 <= b < after.len() && a != b implies (
                        #[trigger] after[a])@ != (#[trigger] after[b])@ by {
                        let a2 = if a < i { a } else { a + 1 };
                        let b2 = if b < i { b } else { b + 1 };
                        assert(after[a] == before[a2]);
                        assert(after[b] == before[b2]);
                    }
                    assert forall|q: Seq<char>| #[trigger] self.claimed().contains(q) == old_claims.remove(qid@).contains(q) by {
                        if self.claimed().contains(q) {
                            let k = choose|k: int| 0 <= k < after.len() && (#[trigger] after[k])@ == q;
                            let k2 = if k < i { k } else { k + 1 };
                            assert(after[k] == before[k2]);
                            assert(k2 != i);
                        }
                        if old_claims.contains(q) && q != qid@ {
                            let k = choose|k: int| 0 <= k < before.len() && (#[trigger] before[k])@ == q;
                            assert(k != i);
                            let k2 = if k < i { k } else { k - 1 };
                            assert(after[k2] == before[k]);
                        }
                    }
                    assert(self.claimed() =~= old_claims.remove(qid@));
                }
            },
            None => {
                proof {
                    assert(self.claimed() =~= old_claims.remove(qid@));
                }
            },
        }
    }

    /// Forgets every claim (the run stopped taking answers).
    pub fn clear(&mut self)
        ensures
            final(self).wf(),
            final(self).claimed() == Set::<Seq<char>>::empty(),
    {
        self.accepted = Vec::new();
        proof {
            assert(self.claimed() =~= Set::<Seq<char>>::empty());
        }
    }

    /// Follows a run event: a settled question (answered, timed out or
    /// interrupted) gives back its claim, the end of the run all of them.
    pub fn settle(&mut self, body: &EventBody)
        requires
            old(self).wf(),
        ensures
            final(self).wf(),
            final(self).claimed() == claims_after(old(self).claimed(), *body),
    {
        match body {
            EventBody::InterviewCompleted { question_id }
            | EventBody::InterviewTimeout { question_id }
            | EventBody::InterviewInterrupted { question_id } => {
                if question_id.as_str().is_empty() {
                    proof {
                        assert(question_id@.len() == 0);
                    }
                }
                self.release(question_id.as_str());
            },
            EventBody::RunCompleted { .. } | EventBody::RunFailed { .. } => {
                self.clear();
            },
            _ => {},
        }
    }

    /// Ends a delivery: when the run did not take the answer, the claim is
    /// given back and the delivery fails.
    pub fn finish_delivery(&mut self, qid: &str, delivered: bool) -> (r: Result<(), AnswerDeliveryError>)
        requires
            old(self).wf(),
        ensures
            final(self).wf(),
            delivered ==> r is Ok && final(self).claimed() == old(self).claimed(),
            !delivered ==> r == Err::<(), AnswerDeliveryError>(AnswerDeliveryError::DeliveryFailed)
                && final(self).claimed() == old(self).claimed().remove(qid@),
    {
        if delivered {
            Ok(())
        } else {
            self.release(qid);
            Err(AnswerDeliveryError::DeliveryFailed)
        }
    }
}

/// The claims after a run event.
pub open spec fn claims_after(claims: Set<Seq<char>>, body: EventBody) -> Set<Seq<char>> {
    match body {
        EventBody::InterviewCompleted { question_id }
        | EventBody::InterviewTimeout { question_id }
        | EventBody::InterviewInterrupted { question_id } => claims.remove(question_id@),
        EventBody::RunCompleted { .. } | EventBody::RunFailed { .. } => Set::empty(),
        _ => claims,
    }
}

/// Whether a claim on a question is taken: the run takes answers and
/// nobody holds the question's claim.
pub open spec fn claim_accepted(claims: Set<Seq<char>>, qid: Seq<char>, has_transport: bool) -> bool {
    has_transport && !claims.contains(qid)
}

/// Takes the claim on a question of a run the server may not hold.
pub fn claim_answer(run: &mut Option<AnswerClaims>, qid: &str, has_transport: bool) -> (r: Result<(), AnswerDeliveryError>)
    requires
        *old(run) matches Some(c) ==> c.wf(),
    ensures
        *old(run) is None ==> r == Err::<(), AnswerDeliveryError>(AnswerDeliveryError::RunNotFound)
            && *final(run) is None,
        *old(run) matches Some(c) ==> (*final(run) matches Some(d) && d.wf()
            && (r is Ok) == claim_accepted(c.claimed(), qid@, has_transport)
            && (r is Ok ==> d.claimed() == c.claimed().insert(qid@))
            && (r is Err ==> r == Err::<(), AnswerDeliveryError>(AnswerDeliveryError::AlreadyAnswered)
                && d.claimed() == c.claimed())),
{
    match run {
        None => Err(AnswerDeliveryError::RunNotFound),
        Some(c) => c.claim(qid, has_transport),
    }
}

/// A question is answered at most once: once its claim is taken, every
/// further claim on it is refused, whatever the run's answer channel.
pub proof fn law_question_claimed_once(claims: Set<Seq<char>>, qid: Seq<char>, has_transport: bool, again: bool)
    requires
        claim_accepted(claims, qid, has_transport),
    ensures
        !claim_accepted(claims.insert(qid), qid, again),
{
}

/// A claim given back (a failed delivery) or settled by the run's events
/// can be taken again while the run takes answers.
pub proof fn law_released_question_can_be_claimed_again(claims: Set<Seq<char>>, qid: Seq<char>)
    ensures
        claim_accepted(claims.remove(qid), qid, true),
{
}

/// A failed delivery leaves the claims as they were before the claim.
pub proof fn law_failed_delivery_restores_claims(claims: Set<Seq<char>>, qid: Seq<char>)
    requires
        !claims.contains(qid),
    ensures
        claims.insert(qid).remove(qid) == claims,
{
    assert(claims.insert(qid).remove(qid) =~= claims);
}

} // verus!

use fabro::answers::{claim_answer, AnswerClaims, AnswerDeliveryError};
use fabro::projection::StageOutcome;
use fabro::reducer::{CompletionStatus, EventBody};
use fabro::status::SuccessReason;

#[test]
fn a_question_is_claimed_once_until_released() {
    let mut claims = AnswerClaims::new();
    assert_eq!(claims.claim("q1", true), Ok(()));
    assert_eq!(claims.claim("q1", true), Err(AnswerDeliveryError::AlreadyAnswered));
    assert_eq!(claims.claim("q2", true), Ok(()));
    assert_eq!(claims.accepted, vec!["q1".to_string(), "q2".to_string()]);
    claims.release("q1");
    assert_eq!(claims.accepted, vec!["q2".to_string()]);
    assert_eq!(claims.claim("q1", true), Ok(()));
}

#[test]
fn a_run_without_an_answer_channel_takes_no_answers() {
    let mut claims = AnswerClaims::new();
    assert_eq!(claims.claim("q1", false), Err(AnswerDeliveryError::AlreadyAnswered));
    assert!(claims.accepted.is_empty());
}

#[test]
fn run_events_settle_claims() {
    let mut claims = AnswerClaims::new();
    claims.claim("q1", true).unwrap();
    claims.claim("q2", true).unwrap();
    claims.settle(&EventBody::InterviewCompleted { question_id: "q1".to_string() });
    assert_eq!(claims.accepted, vec!["q2".to_string()]);
    claims.settle(&EventBody::RunRunning);
    assert_eq!(claims.accepted, vec!["q2".to_string()]);
    claims.settle(&EventBody::RunCompleted {
        reason: SuccessReason::Completed,
        status: CompletionStatus::Known(StageOutcome::Succeeded),
        duration_ms: 1,
        final_git_commit_sha: None,
        final_patch: None,
        diff_summary: None,
    });
    assert!(claims.accepted.is_empty());
}

#[test]
fn a_failed_delivery_gives_the_claim_back() {
    let mut claims = AnswerClaims::new();
    claims.claim("q1", true).unwrap();
    let err = claims.finish_delivery("q1", false).unwrap_err();
    assert_eq!(err, AnswerDeliveryError::DeliveryFailed);
    assert_eq!(err.status(), 503);
    assert_eq!(err.message(), "Failed to deliver answer to the active run.");
    assert!(claims.accepted.is_empty());
    claims.claim("q1", true).unwrap();
    assert_eq!(claims.finish_delivery("q1", true), Ok(()));
    assert_eq!(claims.accepted, vec!["q1".to_string()]);
}

#[test]
fn claiming_for_an_unknown_run_is_not_found() {
    let mut missing: Option<AnswerClaims> = None;
    let err = claim_answer(&mut missing, "q1", true).unwrap_err();
    assert_eq!(err.status(), 404);
    assert_eq!(err.message(), "Run not found.");

    let mut run = Some(AnswerClaims::new());
    assert_eq!(claim_answer(&mut run, "q1", true), Ok(()));
    let err = claim_answer(&mut run, "q1", true).unwrap_err();
    assert_eq!(err.status(), 409);
    assert_eq!(err.message(), "Question no longer exists or was already answered.");
}

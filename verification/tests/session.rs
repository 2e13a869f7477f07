use fabro::ids::{SessionId, TurnId};
use fabro::session::{
    list_session_summaries, next_event_seq, order_turns, select_events, turn_file_id,
    visible_session, PermissionLevel, SessionEventEnvelope, SessionRecord, SessionStatus,
    SessionSummary, TurnRecord, TurnStatus,
};

#[test]
fn session_and_turn_ids_reject_malformed_values() {
    assert!("not-a-ulid".parse::<SessionId>().is_err());
    assert!("not-a-ulid".parse::<TurnId>().is_err());
    assert_eq!(SessionStatus::Idle.as_str(), "idle");
}

fn turn(id: u128, session: SessionId, status: TurnStatus, created_at: i64) -> TurnRecord {
    TurnRecord {
        id: TurnId::from_u128(id),
        session_id: session,
        input: "hello".to_string(),
        status,
        output: None,
        error: None,
        created_at,
        updated_at: created_at,
        completed_at: None,
    }
}

#[test]
fn stale_running_sessions_and_turns_recover_to_idle_and_interrupted() {
    let mut session = SessionRecord::new(SessionId::from_u128(1), 100);
    session.status = SessionStatus::Running;
    let mut running = turn(2, session.id, TurnStatus::Running, 100);
    let mut done = turn(3, session.id, TurnStatus::Succeeded, 90);

    assert!(session.recover_stale(500));
    assert_eq!(session.status, SessionStatus::Idle);
    assert_eq!(session.updated_at, 500);

    assert!(running.recover_stale(500));
    assert_eq!(running.status, TurnStatus::Interrupted);
    assert_eq!(running.completed_at, Some(500));
    assert_eq!(
        running.error.as_deref(),
        Some("Server restarted before the turn completed.")
    );
    let before = done.clone();
    assert!(!done.recover_stale(500));
    assert_eq!(done, before);
}

#[test]
fn deleted_sessions_are_hidden_and_not_recovered() {
    let mut session = SessionRecord::new(SessionId::from_u128(7), 10);
    session.status = SessionStatus::Running;
    session.mark_deleted(20);
    assert_eq!(session.status, SessionStatus::Deleted);
    assert_eq!(session.deleted_at, Some(20));
    let before = session.clone();
    assert!(!session.recover_stale(30));
    assert_eq!(session, before);
    assert_eq!(visible_session(Some(session)), None);
    let live = SessionRecord::new(SessionId::from_u128(8), 10);
    assert_eq!(visible_session(Some(live.clone())), Some(live));
}

#[test]
fn new_sessions_are_idle_read_write() {
    let s = SessionRecord::new(SessionId::from_u128(9), 42);
    assert_eq!(s.status, SessionStatus::Idle);
    assert_eq!(s.permissions, PermissionLevel::ReadWrite);
    assert_eq!(s.created_at, 42);
    assert!(s.runtime_context.is_empty());
}

#[test]
fn listing_skips_deleted_and_orders_by_recent_update_then_id() {
    let mut a = SessionRecord::new(SessionId::from_u128(5), 10);
    a.updated_at = 50;
    let mut b = SessionRecord::new(SessionId::from_u128(3), 10);
    b.updated_at = 50;
    let mut c = SessionRecord::new(SessionId::from_u128(1), 10);
    c.updated_at = 70;
    let mut d = SessionRecord::new(SessionId::from_u128(2), 10);
    d.mark_deleted(80);
    let list = list_session_summaries(&vec![a.clone(), b.clone(), c.clone(), d]);
    let ids: Vec<u128> = list.iter().map(|s| s.id.as_u128()).collect();
    assert_eq!(ids, vec![1, 3, 5]);
    assert_eq!(list[1], SessionSummary::from_record(&b));
}

#[test]
fn events_are_listed_from_a_sequence_in_order() {
    let sid = SessionId::from_u128(1);
    let ev = |seq: u32, name: &str| {
        SessionEventEnvelope::new(sid, None, name.to_string(), "{}".to_string(), 0).with_seq(seq)
    };
    let log = vec![ev(3, "c"), ev(1, "a"), ev(2, "b"), ev(0, "z")];
    let all = select_events(&log, None);
    let names: Vec<&str> = all.iter().map(|e| e.event.as_str()).collect();
    assert_eq!(names, vec!["a", "b", "c"]);
    let later = select_events(&log, Some(2));
    let names: Vec<&str> = later.iter().map(|e| e.event.as_str()).collect();
    assert_eq!(names, vec!["b", "c"]);
    let from_zero = select_events(&log, Some(0));
    assert_eq!(from_zero.len(), 4);
    assert_eq!(from_zero[0].event, "z");
}

#[test]
fn next_sequence_is_one_past_the_largest() {
    assert_eq!(next_event_seq(&vec![]), 1);
    assert_eq!(next_event_seq(&vec![3, 9, 4]), 10);
    assert_eq!(next_event_seq(&vec![u32::MAX]), u32::MAX);
}

#[test]
fn turns_are_ordered_by_creation_keeping_ties_stable() {
    let sid = SessionId::from_u128(1);
    let turns = vec![
        turn(10, sid, TurnStatus::Succeeded, 30),
        turn(11, sid, TurnStatus::Succeeded, 10),
        turn(12, sid, TurnStatus::Failed, 30),
    ];
    let ordered = order_turns(&turns);
    let ids: Vec<u128> = ordered.iter().map(|t| t.id.as_u128()).collect();
    assert_eq!(ids, vec![11, 10, 12]);
}

#[test]
fn turn_files_are_named_by_turn_id() {
    let id = TurnId::from_u128(0x0123_4567_89ab_cdef_0123_4567_89ab_cdef);
    let name = format!("{}.json", id.to_string());
    assert_eq!(turn_file_id(&name), Some(id));
    let upper = format!("{}.JSON", id.to_string());
    assert_eq!(turn_file_id(&upper), Some(id));
    assert_eq!(turn_file_id(&id.to_string()), None);
    assert_eq!(turn_file_id("not-a-ulid.json"), None);
    assert_eq!(turn_file_id(".json"), None);
    assert_eq!(turn_file_id(&format!("{}.jsonl", id.to_string())), None);
}

#[test]
fn status_names_parse_back() {
    for s in [
        SessionStatus::Idle,
        SessionStatus::Running,
        SessionStatus::Failed,
        SessionStatus::Closed,
        SessionStatus::Deleted,
    ] {
        assert_eq!(SessionStatus::parse(s.as_str()), Ok(s));
    }
    for t in [
        TurnStatus::Running,
        TurnStatus::Succeeded,
        TurnStatus::Failed,
        TurnStatus::Interrupted,
    ] {
        assert_eq!(TurnStatus::parse(&t.to_string()), Ok(t));
    }
    assert_eq!(PermissionLevel::ReadOnly.as_str(), "read-only");
    assert_eq!("full".parse::<PermissionLevel>(), Ok(PermissionLevel::Full));
    assert!("Full".parse::<PermissionLevel>().is_err());
}

use fabro::ids::{SessionId, TurnId};
use fabro::session_runtime::{InterruptTurnError, SessionRuntimeManager, StartTurnError};

fn session(n: u128) -> SessionId {
    SessionId::from_u128(n)
}

fn turn(n: u128) -> TurnId {
    TurnId::from_u128(n)
}

#[test]
fn a_session_runs_one_turn_at_a_time() {
    let mut runtime = SessionRuntimeManager::new();
    assert!(!runtime.has_active_turn(session(1)));
    assert_eq!(runtime.reserve_turn(session(1), turn(10)), Ok(()));
    assert!(runtime.has_active_turn(session(1)));
    assert_eq!(runtime.reserve_turn(session(1), turn(11)), Err(StartTurnError::ActiveTurn));
    // Other sessions are independent.
    assert_eq!(runtime.reserve_turn(session(2), turn(20)), Ok(()));
    // Ending another turn keeps the running one.
    runtime.end_turn(session(1), turn(11));
    assert!(runtime.has_active_turn(session(1)));
    runtime.end_turn(session(1), turn(10));
    assert!(!runtime.has_active_turn(session(1)));
    assert_eq!(runtime.reserve_turn(session(1), turn(11)), Ok(()));
}

#[test]
fn interrupts_name_the_running_turn() {
    let mut runtime = SessionRuntimeManager::new();
    assert_eq!(runtime.request_interrupt(session(1), turn(10)), Err(InterruptTurnError::NotActive));
    runtime.reserve_turn(session(1), turn(10)).unwrap();
    assert_eq!(runtime.request_interrupt(session(1), turn(10)), Ok(()));
    assert_eq!(runtime.request_interrupt(session(1), turn(9)), Err(InterruptTurnError::NotActive));
}

#[test]
fn an_interrupt_before_the_cancel_handle_cancels_on_attach() {
    let mut runtime = SessionRuntimeManager::new();
    runtime.reserve_turn(session(1), turn(10)).unwrap();
    assert!(!runtime.interrupt_requested(session(1), turn(10)));
    assert!(!runtime.cancel_turn(session(1), turn(10)));
    assert!(runtime.interrupt_requested(session(1), turn(10)));
    assert!(runtime.attach_cancel_token(session(1), turn(10)));
}

#[test]
fn an_interrupt_after_the_cancel_handle_cancels_at_once() {
    let mut runtime = SessionRuntimeManager::new();
    runtime.reserve_turn(session(1), turn(10)).unwrap();
    assert!(!runtime.attach_cancel_token(session(1), turn(10)));
    assert!(runtime.cancel_turn(session(1), turn(10)));
    // A stale interrupt of another turn does nothing.
    assert!(!runtime.cancel_turn(session(1), turn(9)));
    assert!(!runtime.attach_cancel_token(session(1), turn(9)));
}

#[test]
fn only_idle_sessions_unload() {
    let mut runtime = SessionRuntimeManager::new();
    assert!(runtime.unload_idle(session(1)));
    runtime.reserve_turn(session(1), turn(10)).unwrap();
    runtime.mark_initialized(session(1));
    assert!(runtime.is_initialized(session(1)));
    assert!(!runtime.unload_idle(session(1)));
    runtime.end_turn(session(1), turn(10));
    assert!(runtime.unload_idle(session(1)));
    assert!(!runtime.is_initialized(session(1)));
    assert!(runtime.entries.is_empty());
}

#[test]
fn clearing_a_session_asks_for_a_new_initialization() {
    let mut runtime = SessionRuntimeManager::new();
    runtime.mark_initialized(session(3));
    assert!(runtime.is_initialized(session(3)));
    runtime.clear_session(session(3));
    assert!(!runtime.is_initialized(session(3)));
    assert_eq!(runtime.entries.len(), 1);
}

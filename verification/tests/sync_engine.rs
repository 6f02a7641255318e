use reochat::sync::{SyncAction, SyncEngine, SyncEvent, SyncPhase, MAX_INITIAL_SYNC_ATTEMPTS};

#[test]
fn engine_starts_catching_up_from_the_stored_cursor() {
    let engine = SyncEngine::new(Some(String::from("T0")));
    assert_eq!(engine.phase, SyncPhase::InitialSync);
    assert_eq!(engine.since().map(String::as_str), Some("T0"));

    let fresh = SyncEngine::new(None);
    assert_eq!(fresh.since(), None);
}

#[test]
fn catch_up_success_persists_and_goes_live() {
    let mut engine = SyncEngine::new(None);
    match engine.step(SyncEvent::Response(String::from("T0"))) {
        SyncAction::PersistAndListen(t) => assert_eq!(t, "T0"),
        _ => panic!("the first response is persisted and the long poll entered"),
    }
    assert_eq!(engine.phase, SyncPhase::Live);
    assert_eq!(engine.since().map(String::as_str), Some("T0"));
}

#[test]
fn live_responses_advance_the_cursor_in_order() {
    let mut engine = SyncEngine::new(Some(String::from("T0")));
    engine.step(SyncEvent::Response(String::from("T1")));
    match engine.step(SyncEvent::Response(String::from("T2"))) {
        SyncAction::PersistAndContinue(t) => assert_eq!(t, "T2"),
        _ => panic!("a live response is persisted and the poll continues"),
    }
    assert_eq!(engine.since().map(String::as_str), Some("T2"));
}

#[test]
fn transient_catch_up_failures_are_retried_then_succeed() {
    // Two failures, then a valid response: the engine goes live and the
    // cursor advances exactly once.
    let mut engine = SyncEngine::new(Some(String::from("T0")));
    let mut persisted: Vec<String> = Vec::new();
    for outcome in [
        SyncEvent::TransportError,
        SyncEvent::TransportError,
        SyncEvent::Response(String::from("T1")),
    ] {
        match engine.step(outcome) {
            SyncAction::PersistAndListen(t) | SyncAction::PersistAndContinue(t) => {
                persisted.push(t)
            }
            SyncAction::RetryAfter { since, .. } => {
                assert_eq!(since.as_deref(), Some("T0"));
            }
            SyncAction::Stop => panic!("two transient failures do not stop the engine"),
        }
    }
    assert_eq!(persisted, vec![String::from("T1")]);
    assert_eq!(engine.phase, SyncPhase::Live);
}

#[test]
fn retry_delays_grow_exponentially() {
    let mut engine = SyncEngine::new(None);
    let mut delays: Vec<u64> = Vec::new();
    for _ in 0..3 {
        match engine.step(SyncEvent::TransportError) {
            SyncAction::RetryAfter { delay_ms, .. } => delays.push(delay_ms),
            _ => panic!("early transient failures are retried"),
        }
    }
    assert_eq!(delays, vec![250, 500, 1000]);
}

#[test]
fn catch_up_attempts_are_bounded() {
    let mut engine = SyncEngine::new(None);
    let mut stopped = false;
    for _ in 0..MAX_INITIAL_SYNC_ATTEMPTS {
        if let SyncAction::Stop = engine.step(SyncEvent::TransportError) {
            stopped = true;
            break;
        }
    }
    assert!(stopped, "unbroken transient failures stop the engine");
    assert_eq!(engine.phase, SyncPhase::Terminated);
}

#[test]
fn a_live_failure_terminates() {
    let mut engine = SyncEngine::new(None);
    engine.step(SyncEvent::Response(String::from("T0")));
    match engine.step(SyncEvent::TransportError) {
        SyncAction::Stop => {}
        _ => panic!("a long-poll failure terminates the engine"),
    }
    assert_eq!(engine.phase, SyncPhase::Terminated);
    // The cursor keeps its last acknowledged value.
    assert_eq!(engine.since().map(String::as_str), Some("T0"));
}

#[test]
fn a_terminated_engine_stays_stopped() {
    let mut engine = SyncEngine::new(None);
    engine.step(SyncEvent::TransportError);
    engine.phase = SyncPhase::Terminated;
    match engine.step(SyncEvent::Response(String::from("T9"))) {
        SyncAction::Stop => {}
        _ => panic!("a terminated engine does nothing"),
    }
    assert_eq!(engine.since(), None);
}

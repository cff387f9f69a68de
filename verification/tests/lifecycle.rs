use llm_sidecar::history::SessionStore;
use llm_sidecar::lifecycle::end_session;
use llm_sidecar::message::Message;
use llm_sidecar::supervisor::LlmServerState;

fn running(pid: u32) -> LlmServerState<u32> {
    let mut state = LlmServerState::new();
    state.begin_start();
    state.record_port(1234);
    state.spawn_succeeded(pid);
    state
}

#[test]
fn the_last_session_takes_the_server_with_it() {
    let mut store = SessionStore::with_limit(10, "p");
    store.append("w1", Message::user("hi"));
    let mut state = running(7);
    assert_eq!(end_session(&mut store, &mut state, "w1"), Some(7));
    assert!(store.is_empty());
    assert!(!state.is_running());
    assert!(!state.start_attempted());
}

#[test]
fn the_server_stays_while_another_session_has_a_history() {
    let mut store = SessionStore::with_limit(10, "p");
    store.append("w1", Message::user("hi"));
    store.append("w2", Message::user("ho"));
    let mut state = running(7);
    assert_eq!(end_session(&mut store, &mut state, "w1"), None);
    assert!(!store.contains("w1"));
    assert!(store.contains("w2"));
    assert!(state.is_running());
    assert!(state.start_attempted());
    assert_eq!(end_session(&mut store, &mut state, "w2"), Some(7));
    assert!(!state.is_running());
}

#[test]
fn ending_a_session_without_a_server_only_forgets_the_history() {
    let mut store = SessionStore::with_limit(10, "p");
    store.append("w1", Message::user("hi"));
    let mut state: LlmServerState<u32> = LlmServerState::new();
    state.begin_start();
    assert_eq!(end_session(&mut store, &mut state, "w1"), None);
    assert!(store.is_empty());
    assert!(state.start_attempted());
}

#[test]
fn ending_an_unknown_session_with_no_other_left() {
    let mut store = SessionStore::with_limit(10, "p");
    let mut state = running(3);
    assert_eq!(end_session(&mut store, &mut state, "ghost"), Some(3));
    assert!(!state.is_running());
}

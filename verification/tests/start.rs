use llm_sidecar::start::{StartFlow, StartStep};
use llm_sidecar::supervisor::{sidecar_args, LlmServerState, SpawnFailure};

#[test]
fn start_on_a_free_default_port() {
    let mut state: LlmServerState<u32> = LlmServerState::new();
    let mut flow = StartFlow::begin(&mut state);
    assert!(state.start_attempted());
    assert_eq!(flow.pending(), StartStep::Probe(1234));
    flow.answer(&mut state, true);
    assert_eq!(flow.pending(), StartStep::Launch(1234));
    assert_eq!(state.port(), 1234);
    assert!(!flow.port_unavailable());
    assert_eq!(flow.launch_args(), Some(sidecar_args(1234)));
    assert_eq!(flow.launched(&mut state, 42), None);
    assert_eq!(flow.launch_args(), None);
    assert!(state.is_running());
    assert_eq!(flow.pending(), StartStep::WarmUp(5));
    flow.warmed_up();
    assert_eq!(flow.pending(), StartStep::Finished);
    assert_eq!(flow.error_message(), None);
    assert!(state.is_running());
    assert!(state.start_attempted());
}

#[test]
fn start_on_a_running_server_is_over_at_once() {
    let mut state: LlmServerState<u32> = LlmServerState::new();
    state.begin_start();
    state.record_port(1236);
    state.spawn_succeeded(7);
    let mut flow = StartFlow::begin(&mut state);
    assert_eq!(flow.pending(), StartStep::Finished);
    flow.answer(&mut state, true);
    assert_eq!(flow.pending(), StartStep::Finished);
    assert_eq!(flow.launched(&mut state, 8), Some(8));
    assert_eq!(state.port(), 1236);
    assert_eq!(state.terminate(), Some(7));
}

#[test]
fn start_moves_to_another_port_when_the_default_stays_busy() {
    let mut state: LlmServerState<u32> = LlmServerState::new();
    let mut flow = StartFlow::begin(&mut state);
    assert_eq!(flow.pending(), StartStep::Probe(1234));
    flow.answer(&mut state, false);
    assert_eq!(flow.pending(), StartStep::Release(1234));
    flow.answer(&mut state, false);
    assert_eq!(flow.pending(), StartStep::Probe(1235));
    flow.answer(&mut state, false);
    assert_eq!(flow.pending(), StartStep::Probe(1236));
    assert_eq!(state.port(), 1234);
    flow.answer(&mut state, true);
    assert_eq!(flow.pending(), StartStep::Launch(1236));
    assert_eq!(state.port(), 1236);
    assert!(!flow.port_unavailable());
    assert_eq!(flow.launch_args().unwrap()[..2], ["--port".to_string(), "1236".to_string()]);
}

#[test]
fn start_keeps_the_default_port_once_it_is_freed() {
    let mut state: LlmServerState<u32> = LlmServerState::new();
    let mut flow = StartFlow::begin(&mut state);
    flow.answer(&mut state, false);
    flow.answer(&mut state, true);
    assert_eq!(flow.pending(), StartStep::Launch(1234));
    assert_eq!(state.port(), 1234);
}

#[test]
fn start_goes_on_with_the_default_port_when_nothing_is_free() {
    let mut state: LlmServerState<u32> = LlmServerState::new();
    let mut flow = StartFlow::begin(&mut state);
    let mut answers = 0;
    loop {
        match flow.pending() {
            StartStep::Probe(_) | StartStep::Release(_) => {
                flow.answer(&mut state, false);
                answers += 1;
            }
            _ => break,
        }
    }
    assert_eq!(answers, 12);
    assert_eq!(flow.pending(), StartStep::Launch(1234));
    assert!(flow.port_unavailable());
    assert_eq!(state.port(), 1234);
}

#[test]
fn a_failed_launch_ends_the_start_with_the_error() {
    let mut state: LlmServerState<u32> = LlmServerState::new();
    let mut flow = StartFlow::begin(&mut state);
    flow.answer(&mut state, true);
    flow.launch_failed(&mut state, SpawnFailure::LaunchFailed, "exec format error".to_string());
    assert_eq!(flow.pending(), StartStep::Failed);
    assert_eq!(
        flow.error_message(),
        Some("Failed to spawn sidecar: exec format error".to_string())
    );
    assert!(!state.start_attempted());
    assert!(!state.is_running());
    let again = StartFlow::begin(&mut state);
    assert_eq!(again.pending(), StartStep::Probe(1234));
    assert!(state.start_attempted());
}

#[test]
fn a_missing_executable_is_reported_as_such() {
    let mut state: LlmServerState<u32> = LlmServerState::new();
    let mut flow = StartFlow::begin(&mut state);
    flow.answer(&mut state, true);
    flow.launch_failed(&mut state, SpawnFailure::NotFound, "candle-vllm".to_string());
    assert_eq!(flow.error_message(), Some("Sidecar not found: candle-vllm".to_string()));
}

#[test]
fn reports_out_of_turn_are_passed_over() {
    let mut state: LlmServerState<u32> = LlmServerState::new();
    let mut flow = StartFlow::begin(&mut state);
    assert_eq!(flow.launched(&mut state, 3), Some(3));
    flow.launch_failed(&mut state, SpawnFailure::NotFound, "x".to_string());
    flow.warmed_up();
    assert_eq!(flow.pending(), StartStep::Probe(1234));
    assert!(state.start_attempted());
    assert!(!state.is_running());
}

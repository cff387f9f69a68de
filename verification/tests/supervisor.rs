use llm_sidecar::ports::DEFAULT_PORT;
use llm_sidecar::supervisor::{
    sidecar_args, Channel, LlmServerState, MonitorStep, SidecarEvent, SpawnFailure, StartError,
    SIDECAR_NAME, WARMUP_SECONDS,
};

#[test]
fn a_new_state_is_idle_on_the_default_port() {
    let state: LlmServerState<u32> = LlmServerState::new();
    assert!(!state.is_running());
    assert!(!state.start_attempted());
    assert_eq!(state.port(), DEFAULT_PORT);
}

#[test]
fn fixed_values_of_the_supervisor() {
    assert_eq!(SIDECAR_NAME, "candle-vllm");
    assert_eq!(WARMUP_SECONDS, 5);
}

#[test]
fn sidecar_args_are_the_fixed_list_with_the_port() {
    let args = sidecar_args(1237);
    let expected: Vec<String> = [
        "--port",
        "1237",
        "--model-id",
        "unsloth/Qwen3-4B-GGUF",
        "--weight-file",
        "Qwen3-4B-Q4_0.gguf",
        "qwen3",
        "--quant",
        "gguf",
        "--temperature",
        "0.0",
        "--penalty",
        "1.0",
    ]
    .iter()
    .map(|s| s.to_string())
    .collect();
    assert_eq!(args, expected);
}

#[test]
fn start_marks_the_attempt_and_takes_the_handle() {
    let mut state: LlmServerState<u32> = LlmServerState::new();
    assert!(state.begin_start());
    assert!(state.start_attempted());
    assert!(!state.is_running());
    state.record_port(1236);
    state.spawn_succeeded(4711);
    assert!(state.is_running());
    assert!(state.start_attempted());
    assert_eq!(state.port(), 1236);
}

#[test]
fn start_on_a_running_server_changes_nothing() {
    let mut state: LlmServerState<u32> = LlmServerState::new();
    assert!(state.begin_start());
    state.record_port(1240);
    state.spawn_succeeded(1);
    assert!(!state.begin_start());
    assert!(state.is_running());
    assert!(state.start_attempted());
    assert_eq!(state.port(), 1240);
    assert_eq!(state.terminate(), Some(1));
}

#[test]
fn a_failed_launch_forgets_the_attempt() {
    let mut state: LlmServerState<u32> = LlmServerState::new();
    assert!(state.begin_start());
    let error = state.spawn_failed(SpawnFailure::NotFound, "no such file".to_string());
    assert!(!state.start_attempted());
    assert!(!state.is_running());
    assert_eq!(
        error,
        StartError { failure: SpawnFailure::NotFound, detail: "no such file".to_string() }
    );
    assert_eq!(error.message(), "Sidecar not found: no such file");
    assert!(state.begin_start());
}

#[test]
fn start_error_messages() {
    let error = StartError { failure: SpawnFailure::LaunchFailed, detail: "denied".to_string() };
    assert_eq!(error.message(), "Failed to spawn sidecar: denied");
}

#[test]
fn terminate_hands_out_the_handle_and_forgets_the_attempt() {
    let mut state: LlmServerState<u32> = LlmServerState::new();
    state.begin_start();
    state.spawn_succeeded(99);
    assert_eq!(state.terminate(), Some(99));
    assert!(!state.is_running());
    assert!(!state.start_attempted());
}

#[test]
fn terminate_without_a_process_is_a_noop() {
    let mut state: LlmServerState<u32> = LlmServerState::new();
    assert_eq!(state.terminate(), None);
    assert!(!state.start_attempted());
    state.begin_start();
    assert_eq!(state.terminate(), None);
    assert!(state.start_attempted());
}

#[test]
fn start_after_terminate_gives_a_fresh_process() {
    let mut state: LlmServerState<u32> = LlmServerState::new();
    state.begin_start();
    state.record_port(1234);
    state.spawn_succeeded(10);
    assert_eq!(state.terminate(), Some(10));
    assert!(state.begin_start());
    state.record_port(1235);
    state.spawn_succeeded(11);
    assert!(state.is_running());
    assert!(state.start_attempted());
    assert_eq!(state.port(), 1235);
    assert_eq!(state.terminate(), Some(11));
}

#[test]
fn reported_termination_empties_the_state_whatever_it_was() {
    let mut running: LlmServerState<u32> = LlmServerState::new();
    running.begin_start();
    running.record_port(1239);
    running.spawn_succeeded(5);
    let step = running.on_sidecar_event(SidecarEvent::Terminated);
    assert!(!running.is_running());
    assert!(!running.start_attempted());
    assert_eq!(running.port(), 1239);
    assert_eq!(
        step,
        MonitorStep {
            channel: Some(Channel::Terminated),
            payload: String::new(),
            keep_monitoring: false
        }
    );

    let mut starting: LlmServerState<u32> = LlmServerState::new();
    starting.begin_start();
    starting.on_sidecar_event(SidecarEvent::Terminated);
    assert!(!starting.is_running());
    assert!(!starting.start_attempted());

    let mut idle: LlmServerState<u32> = LlmServerState::new();
    idle.on_sidecar_event(SidecarEvent::Terminated);
    assert!(!idle.is_running());
    assert!(!idle.start_attempted());
}

#[test]
fn output_lines_are_passed_on_and_change_nothing() {
    let mut state: LlmServerState<u32> = LlmServerState::new();
    state.begin_start();
    state.spawn_succeeded(5);
    let step = state.on_sidecar_event(SidecarEvent::Stdout(b"listening on 1234".to_vec()));
    assert_eq!(
        step,
        MonitorStep {
            channel: Some(Channel::Stdout),
            payload: "listening on 1234".to_string(),
            keep_monitoring: true
        }
    );
    let step = state.on_sidecar_event(SidecarEvent::Stderr(b"warn: slow".to_vec()));
    assert_eq!(step.channel, Some(Channel::Stderr));
    assert_eq!(step.payload, "warn: slow");
    assert!(step.keep_monitoring);
    let step = state.on_sidecar_event(SidecarEvent::Error("pipe closed".to_string()));
    assert_eq!(step.channel, Some(Channel::Error));
    assert_eq!(step.payload, "pipe closed");
    assert!(step.keep_monitoring);
    let step = state.on_sidecar_event(SidecarEvent::Other);
    assert_eq!(step.channel, None);
    assert_eq!(step.payload, "");
    assert!(step.keep_monitoring);
    assert!(state.is_running());
    assert!(state.start_attempted());
}

#[test]
fn output_that_is_no_utf8_is_decoded_leniently() {
    let mut state: LlmServerState<u32> = LlmServerState::new();
    let step = state.on_sidecar_event(SidecarEvent::Stdout(vec![b'o', b'k', 0xff, b'!']));
    assert_eq!(step.payload, "ok\u{fffd}!");
    let step = state.on_sidecar_event(SidecarEvent::Stderr("gr\u{fc}n".as_bytes().to_vec()));
    assert_eq!(step.payload, "gr\u{fc}n");
}

#[test]
fn channel_names() {
    assert_eq!(Channel::Stdout.name(), "sidecar-stdout");
    assert_eq!(Channel::Stderr.name(), "sidecar-stderr");
    assert_eq!(Channel::Error.name(), "sidecar-error");
    assert_eq!(Channel::Terminated.name(), "sidecar-terminated");
}

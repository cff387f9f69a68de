use crate::ports::DEFAULT_PORT;
use crate::text::{decimal, decimal_text, join2, lossy_text, utf8_lossy};
use vstd::prelude::*;
use vstd::string::*;

verus! {

/// The executable that is started as the inference server.
pub const SIDECAR_NAME: &'static str = "candle-vllm";

/// How long `start` waits after the launch before it reports success. The
/// server is not asked whether it is ready.
pub const WARMUP_SECONDS: u64 = 5;

/// The run state as contracts see it.
pub struct RunState<H> {
    /// The handle of the live server process, if there is one.
    pub child: Option<H>,
    /// Whether a launch is under way or has succeeded.
    pub start_attempted: bool,
    /// The port the server was started on; it means something only while
    /// `child` is there.
    pub port: u16,
}

/// The stage of the supervisor that a run state stands for.
#[derive(Clone, Copy, Debug, PartialEq, Eq, Structural)]
pub enum Stage {
    /// No process and no launch under way.
    Idle,
    /// A launch is under way and no process is there yet.
    Starting,
    /// The process is there.
    Running,
}

impl<H> RunState<H> {
    /// The state a supervisor begins with.
    pub open spec fn initial() -> Self {
        RunState { child: None, start_attempted: false, port: DEFAULT_PORT }
    }

    /// The stage this state stands for.
    pub open spec fn stage(self) -> Stage {
        if self.child is Some {
            Stage::Running
        } else if self.start_attempted {
            Stage::Starting
        } else {
            Stage::Idle
        }
    }

    /// After `begin_start`: a running server is left alone, anything else is
    /// marked as starting.
    pub open spec fn begun(self) -> Self {
        if self.child is Some {
            self
        } else {
            RunState { start_attempted: true, ..self }
        }
    }

    /// After the port was chosen.
    pub open spec fn on_port(self, port: u16) -> Self {
        RunState { port, ..self }
    }

    /// After the launch succeeded with `child`.
    pub open spec fn launched(self, child: H) -> Self {
        RunState { child: Some(child), ..self }
    }

    /// After the launch failed.
    pub open spec fn launch_failed(self) -> Self {
        RunState { start_attempted: false, ..self }
    }

    /// After the process was reported gone.
    pub open spec fn gone(self) -> Self {
        RunState { child: None, start_attempted: false, ..self }
    }

    /// After `terminate`: with a process, it is given up and the attempt
    /// forgotten; without one nothing changes.
    pub open spec fn terminated(self) -> Self {
        if self.child is Some {
            self.gone()
        } else {
            self
        }
    }
}

/// The arguments the server is started with for `port`.
pub open spec fn launch_arguments(port: u16) -> Seq<Seq<char>> {
    seq![
        "--port"@,
        decimal(port as nat),
        "--model-id"@,
        "unsloth/Qwen3-4B-GGUF"@,
        "--weight-file"@,
        "Qwen3-4B-Q4_0.gguf"@,
        "qwen3"@,
        "--quant"@,
        "gguf"@,
        "--temperature"@,
        "0.0"@,
        "--penalty"@,
        "1.0"@,
    ]
}

/// Builds the argument list for the server: port, model, weight file, model
/// family, quantisation, sampling temperature and repetition penalty.
pub fn sidecar_args(port: u16) -> (args: Vec<String>)
    ensures
        args.deep_view() == launch_arguments(port),
{
    let args = vec![
        "--port".to_owned(),
        decimal_text(port as u64),
        "--model-id".to_owned(),
        "unsloth/Qwen3-4B-GGUF".to_owned(),
        "--weight-file".to_owned(),
        "Qwen3-4B-Q4_0.gguf".to_owned(),
        "qwen3".to_owned(),
        "--quant".to_owned(),
        "gguf".to_owned(),
        "--temperature".to_owned(),
        "0.0".to_owned(),
        "--penalty".to_owned(),
        "1.0".to_owned(),
    ];
    assert(args.deep_view() =~= launch_arguments(port));
    args
}

/// Why a launch failed.
#[derive(Clone, Copy, Debug, PartialEq, Eq, Structural)]
pub enum SpawnFailure {
    /// The executable could not be found.
    NotFound,
    /// The executable was found and could not be started.
    LaunchFailed,
}

/// A start error as contracts see it.
pub struct StartFailure {
    pub failure: SpawnFailure,
    pub detail: Seq<char>,
}

impl StartFailure {
    /// The text of the error as it is shown to the caller.
    pub open spec fn message_text(self) -> Seq<char> {
        match self.failure {
            SpawnFailure::NotFound => "Sidecar not found: "@ + self.detail,
            SpawnFailure::LaunchFailed => "Failed to spawn sidecar: "@ + self.detail,
        }
    }
}

/// The error that `start` surfaces when the server could not be launched.
#[derive(Debug, PartialEq, Eq)]
pub struct StartError {
    /// What went wrong.
    pub failure: SpawnFailure,
    /// What the operating system said.
    pub detail: String,
}

impl View for StartError {
    type V = StartFailure;

    open spec fn view(&self) -> StartFailure {
        StartFailure { failure: self.failure, detail: self.detail@ }
    }
}

impl StartError {
    /// The error as a line of text.
    pub fn message(&self) -> (text: String)
        ensures
            text@ == self@.message_text(),
    {
        match self.failure {
            SpawnFailure::NotFound => join2("Sidecar not found: ", self.detail.as_str()),
            SpawnFailure::LaunchFailed => join2("Failed to spawn sidecar: ", self.detail.as_str()),
        }
    }
}

/// What the server process has to report, as the monitor receives it.
#[derive(Debug, PartialEq, Eq)]
pub enum SidecarEvent {
    /// A line on standard output.
    Stdout(Vec<u8>),
    /// A line on standard error.
    Stderr(Vec<u8>),
    /// An error of the process or of the pipe to it.
    Error(String),
    /// The process has ended.
    Terminated,
    /// Anything else; it is passed over.
    Other,
}

/// The channels on which the supervisor reports to its caller.
#[derive(Clone, Copy, Debug, PartialEq, Eq, Structural)]
pub enum Channel {
    Stdout,
    Stderr,
    Error,
    Terminated,
}

impl Channel {
    /// The name of the event that is emitted on this channel.
    pub open spec fn name_text(self) -> Seq<char> {
        match self {
            Channel::Stdout => "sidecar-stdout"@,
            Channel::Stderr => "sidecar-stderr"@,
            Channel::Error => "sidecar-error"@,
            Channel::Terminated => "sidecar-terminated"@,
        }
    }

    /// The name of the event that is emitted on this channel.
    pub fn name(&self) -> (name: &'static str)
        ensures
            name@ == self.name_text(),
    {
        match self {
            Channel::Stdout => "sidecar-stdout",
            Channel::Stderr => "sidecar-stderr",
            Channel::Error => "sidecar-error",
            Channel::Terminated => "sidecar-terminated",
        }
    }
}

/// What the monitor does with one event.
#[derive(Debug, PartialEq, Eq)]
pub struct MonitorStep {
    /// The channel to emit on, if anything is emitted.
    pub channel: Option<Channel>,
    /// What is emitted.
    pub payload: String,
    /// Whether the monitor goes on listening.
    pub keep_monitoring: bool,
}

/// The channel on which `event` is reported, if it is reported at all.
pub open spec fn event_channel(event: SidecarEvent) -> Option<Channel> {
    match event {
        SidecarEvent::Stdout(_) => Some(Channel::Stdout),
        SidecarEvent::Stderr(_) => Some(Channel::Stderr),
        SidecarEvent::Error(_) => Some(Channel::Error),
        SidecarEvent::Terminated => Some(Channel::Terminated),
        SidecarEvent::Other => None,
    }
}

/// The text that is emitted for `event`: an output line decoded leniently, an
/// error message as it is, nothing otherwise.
pub open spec fn event_payload(event: SidecarEvent) -> Seq<char> {
    match event {
        SidecarEvent::Stdout(line) => utf8_lossy(line@),
        SidecarEvent::Stderr(line) => utf8_lossy(line@),
        SidecarEvent::Error(message) => message@,
        SidecarEvent::Terminated => Seq::empty(),
        SidecarEvent::Other => Seq::empty(),
    }
}

/// The run state of the one inference server: the handle of its process, the
/// mark of a launch under way, and its port. `H` is the handle type of whoever
/// launches the process; the state only keeps it.
pub struct LlmServerState<H> {
    child: Option<H>,
    start_attempted: bool,
    port: u16,
}

impl<H> View for LlmServerState<H> {
    type V = RunState<H>;

    closed spec fn view(&self) -> RunState<H> {
        RunState { child: self.child, start_attempted: self.start_attempted, port: self.port }
    }
}

impl<H> LlmServerState<H> {
    /// No process, no launch under way, the default port.
    pub fn new() -> (state: Self)
        ensures
            state@ == RunState::<H>::initial(),
    {
        LlmServerState { child: None, start_attempted: false, port: DEFAULT_PORT }
    }

    /// Whether the server process is there.
    pub fn is_running(&self) -> (running: bool)
        ensures
            running == (self@.child is Some),
    {
        self.child.is_some()
    }

    /// Whether a launch is under way or has succeeded.
    pub fn start_attempted(&self) -> (attempted: bool)
        ensures
            attempted == self@.start_attempted,
    {
        self.start_attempted
    }

    /// The port that was recorded last.
    pub fn port(&self) -> (port: u16)
        ensures
            port == self@.port,
    {
        self.port
    }

    /// First step of `start`. Returns `false` when the server is running
    /// already, and then changes nothing: the start is over, with success.
    /// Otherwise marks the launch as under way and returns `true`: the caller
    /// goes on to choose a port and to launch.
    pub fn begin_start(&mut self) -> (proceed: bool)
        ensures
            proceed == (old(self)@.child is None),
            final(self)@ == old(self)@.begun(),
    {
        if self.child.is_some() {
            false
        } else {
            self.start_attempted = true;
            true
        }
    }

    /// Records the port that the server is about to be launched on.
    pub fn record_port(&mut self, port: u16)
        ensures
            final(self)@ == old(self)@.on_port(port),
    {
        self.port = port;
    }

    /// Takes the handle of the process that was just launched.
    pub fn spawn_succeeded(&mut self, child: H)
        ensures
            final(self)@ == old(self)@.launched(child),
    {
        self.child = Some(child);
    }

    /// Takes note of a failed launch: the attempt is forgotten, so that a later
    /// `start` tries again, and the error is handed back for the caller of
    /// `start`. Nothing is retried here.
    pub fn spawn_failed(&mut self, failure: SpawnFailure, detail: String) -> (error: StartError)
        ensures
            final(self)@ == old(self)@.launch_failed(),
            error@ == (StartFailure { failure, detail: detail@ }),
    {
        self.start_attempted = false;
        StartError { failure, detail }
    }

    /// Handles one event of the server process on behalf of the monitor.
    ///
    /// Output lines and errors are passed on and leave the state alone. The end
    /// of the process empties the handle, forgets the attempt, is reported on
    /// the `Terminated` channel and ends the monitoring, in whatever state it
    /// finds the supervisor.
    pub fn on_sidecar_event(&mut self, event: SidecarEvent) -> (step: MonitorStep)
        ensures
            step.channel == event_channel(event),
            step.payload@ == event_payload(event),
            step.keep_monitoring == !(event is Terminated),
            final(self)@ == if event is Terminated {
                old(self)@.gone()
            } else {
                old(self)@
            },
    {
        match event {
            SidecarEvent::Stdout(line) => MonitorStep {
                channel: Some(Channel::Stdout),
                payload: lossy_text(line.as_slice()),
                keep_monitoring: true,
            },
            SidecarEvent::Stderr(line) => MonitorStep {
                channel: Some(Channel::Stderr),
                payload: lossy_text(line.as_slice()),
                keep_monitoring: true,
            },
            SidecarEvent::Error(message) => MonitorStep {
                channel: Some(Channel::Error),
                payload: message,
                keep_monitoring: true,
            },
            SidecarEvent::Terminated => {
                self.child = None;
                self.start_attempted = false;
                MonitorStep {
                    channel: Some(Channel::Terminated),
                    payload: String::new(),
                    keep_monitoring: false,
                }
            },
            SidecarEvent::Other => MonitorStep {
                channel: None,
                payload: String::new(),
                keep_monitoring: true,
            },
        }
    }

    /// Gives up the server process. With a process, its handle is returned for
    /// the caller to kill, and the attempt is forgotten. Without one, nothing
    /// changes and `None` is returned: that is success too.
    pub fn terminate(&mut self) -> (child: Option<H>)
        ensures
            child == old(self)@.child,
            final(self)@ == old(self)@.terminated(),
    {
        let child = self.child.take();
        if child.is_some() {
            self.start_attempted = false;
        }
        child
    }
}

/// After `terminate` a start goes through again: it is not taken for a running
/// server, it marks the launch as under way, and once the launch has succeeded
/// the state holds the new handle and the port, with the attempt still marked.
pub proof fn lemma_restart_after_terminate<H>(state: RunState<H>, port: u16, child: H)
    ensures
        state.terminated().child is None,
        state.terminated().begun().stage() == Stage::Starting,
        state.terminated().begun().on_port(port).launched(child) == (RunState {
            child: Some(child),
            start_attempted: true,
            port,
        }),
        state.terminated().begun().on_port(port).launched(child).stage() == Stage::Running,
{
}

/// Whatever the supervisor was doing when the process was reported gone, it is
/// idle afterwards: no handle, no attempt.
pub proof fn lemma_gone_is_idle<H>(state: RunState<H>)
    ensures
        state.gone().child is None,
        !state.gone().start_attempted,
        state.gone().stage() == Stage::Idle,
        state.gone().port == state.port,
{
}

/// A failed launch leaves a supervisor that was starting idle again, so that
/// the next start is a new attempt.
pub proof fn lemma_failed_launch_is_idle<H>(state: RunState<H>)
    requires
        state.child is None,
    ensures
        state.begun().launch_failed().stage() == Stage::Idle,
        state.begun().launch_failed().begun().stage() == Stage::Starting,
{
}

/// A start on a running server changes nothing, whatever is repeated.
pub proof fn lemma_start_on_running_is_noop<H>(state: RunState<H>)
    requires
        state.child is Some,
    ensures
        state.begun() == state,
        state.stage() == Stage::Running,
{
}

} // verus!

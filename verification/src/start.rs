use crate::ports::{
    after_answers, allocated_port, allocation_exhausted, lemma_allocation_outcome,
    lemma_chosen_is_final, next_phase, pending_step, phase_valid, scan_limit, AllocPhase,
    PortAllocator, PortStep, DEFAULT_PORT,
};
use crate::supervisor::{
    launch_arguments, sidecar_args, LlmServerState, RunState, SpawnFailure, Stage, StartError,
    StartFailure, WARMUP_SECONDS,
};
use vstd::prelude::*;
use vstd::string::*;

verus! {

/// What the caller of a `StartFlow` has to do next.
#[derive(Clone, Copy, Debug, PartialEq, Eq, Structural)]
pub enum StartStep {
    /// Find out whether something listens on the port, and answer `true` if
    /// nothing does.
    Probe(u16),
    /// Try to end the process that holds the port, and answer `true` if that
    /// worked.
    Release(u16),
    /// Launch `SIDECAR_NAME` with the arguments that `launch_args` gives, on
    /// this port, and report how it went.
    Launch(u16),
    /// Wait for this many seconds, then report it.
    WarmUp(u64),
    /// The start is over, with success.
    Finished,
    /// The start is over: the launch failed.
    Failed,
}

/// Where a start stands, as contracts see it.
pub enum FlowView {
    /// A port is being chosen.
    Allocating(AllocPhase),
    /// The port is chosen and recorded; the launch is awaited. The flag tells
    /// that no port was found free and the default port is used all the same.
    Launching(u16, bool),
    /// The process is there; the warm-up is awaited.
    WarmingUp,
    /// Over, with success.
    Finished,
    /// Over, with a failed launch.
    Failed(StartFailure),
}

/// A start and the run state it works on.
pub struct Progress<H> {
    pub flow: FlowView,
    pub state: RunState<H>,
}

impl FlowView {
    /// The step that a start asks for.
    pub open spec fn pending(self) -> StartStep {
        match self {
            FlowView::Allocating(phase) => match pending_step(DEFAULT_PORT, phase) {
                PortStep::Probe(port) => StartStep::Probe(port),
                PortStep::Release(port) => StartStep::Release(port),
                PortStep::Bind(port) => StartStep::Launch(port),
            },
            FlowView::Launching(port, _) => StartStep::Launch(port),
            FlowView::WarmingUp => StartStep::WarmUp(WARMUP_SECONDS),
            FlowView::Finished => StartStep::Finished,
            FlowView::Failed(_) => StartStep::Failed,
        }
    }

    /// After the warm-up: the start is over. Anywhere else nothing changes.
    pub open spec fn warmed_up(self) -> Self {
        match self {
            FlowView::WarmingUp => FlowView::Finished,
            _ => self,
        }
    }
}

impl<H> Progress<H> {
    /// A start on `state`: over at once where the server is running, the
    /// choice of a port otherwise, with the attempt marked.
    pub open spec fn begin(state: RunState<H>) -> Self {
        Progress {
            flow: if state.child is Some {
                FlowView::Finished
            } else {
                FlowView::Allocating(AllocPhase::CheckPreferred)
            },
            state: state.begun(),
        }
    }

    /// After the answer to a probe or to an attempt to free a port. The port
    /// is recorded as soon as it is chosen.
    pub open spec fn answered(self, positive: bool) -> Self {
        match self.flow {
            FlowView::Allocating(phase) => match next_phase(DEFAULT_PORT, phase, positive) {
                AllocPhase::Chosen { port, exhausted } => Progress {
                    flow: FlowView::Launching(port, exhausted),
                    state: self.state.on_port(port),
                },
                next => Progress { flow: FlowView::Allocating(next), state: self.state },
            },
            _ => self,
        }
    }

    /// After the launch succeeded with `child`.
    pub open spec fn launched(self, child: H) -> Self {
        match self.flow {
            FlowView::Launching(_, _) => Progress {
                flow: FlowView::WarmingUp,
                state: self.state.launched(child),
            },
            _ => self,
        }
    }

    /// After the launch failed.
    pub open spec fn launch_failed(self, failure: SpawnFailure, detail: Seq<char>) -> Self {
        match self.flow {
            FlowView::Launching(_, _) => Progress {
                flow: FlowView::Failed(StartFailure { failure, detail }),
                state: self.state.launch_failed(),
            },
            _ => self,
        }
    }

    /// After the warm-up.
    pub open spec fn warmed_up(self) -> Self {
        Progress { flow: self.flow.warmed_up(), state: self.state }
    }
}

enum FlowStage {
    Allocating(PortAllocator),
    Launching(u16, bool),
    WarmingUp,
    Finished,
    Failed(StartError),
}

/// One run of `start`, step by step. The flow decides; the caller probes,
/// frees, launches and waits, and reports back. Each report is applied to the
/// run state at once, so that the state is never behind the start.
pub struct StartFlow {
    stage: FlowStage,
}

impl View for StartFlow {
    type V = FlowView;

    closed spec fn view(&self) -> FlowView {
        match self.stage {
            FlowStage::Allocating(allocator) => FlowView::Allocating(allocator.phase()),
            FlowStage::Launching(port, exhausted) => FlowView::Launching(port, exhausted),
            FlowStage::WarmingUp => FlowView::WarmingUp,
            FlowStage::Finished => FlowView::Finished,
            FlowStage::Failed(error) => FlowView::Failed(error@),
        }
    }
}

impl StartFlow {
    #[verifier::type_invariant]
    spec fn inv(self) -> bool {
        match self.stage {
            FlowStage::Allocating(allocator) => {
                &&& allocator.preferred() == DEFAULT_PORT
                &&& !(allocator.phase() is Chosen)
                &&& phase_valid(DEFAULT_PORT, allocator.phase())
            },
            _ => true,
        }
    }

    /// Begins a start. On a running server it is over at once and nothing
    /// changes; otherwise the attempt is marked and a port is to be chosen,
    /// the default port first.
    pub fn begin<H>(state: &mut LlmServerState<H>) -> (flow: Self)
        ensures
            (Progress { flow: flow@, state: final(state)@ }) == Progress::begin(old(state)@),
    {
        if state.begin_start() {
            StartFlow { stage: FlowStage::Allocating(PortAllocator::new(DEFAULT_PORT)) }
        } else {
            StartFlow { stage: FlowStage::Finished }
        }
    }

    /// What has to be done next.
    pub fn pending(&self) -> (step: StartStep)
        ensures
            step == self@.pending(),
            !(self@ is Allocating && self@->Allocating_0 is Chosen),
    {
        proof {
            use_type_invariant(self);
        }
        match &self.stage {
            FlowStage::Allocating(allocator) => match allocator.pending() {
                PortStep::Probe(port) => StartStep::Probe(port),
                PortStep::Release(port) => StartStep::Release(port),
                PortStep::Bind(port) => StartStep::Launch(port),
            },
            FlowStage::Launching(port, _) => StartStep::Launch(*port),
            FlowStage::WarmingUp => StartStep::WarmUp(WARMUP_SECONDS),
            FlowStage::Finished => StartStep::Finished,
            FlowStage::Failed(_) => StartStep::Failed,
        }
    }

    /// Takes the answer to a probe or to an attempt to free a port. When the
    /// answer settles the port, the port is recorded in the run state and the
    /// launch is next. Outside the choice of a port the answer is passed over.
    pub fn answer<H>(&mut self, state: &mut LlmServerState<H>, positive: bool)
        ensures
            (Progress { flow: final(self)@, state: final(state)@ }) == (Progress {
                flow: old(self)@,
                state: old(state)@,
            }).answered(positive),
    {
        proof {
            use_type_invariant(&*self);
        }
        match &self.stage {
            FlowStage::Allocating(allocator) => {
                let mut next = *allocator;
                next.answer(positive);
                match next.outcome() {
                    Some((port, exhausted)) => {
                        state.record_port(port);
                        self.stage = FlowStage::Launching(port, exhausted);
                    },
                    None => {
                        self.stage = FlowStage::Allocating(next);
                    },
                }
            },
            _ => {},
        }
    }

    /// Takes the handle of the launched process into the run state; the
    /// warm-up is next. A handle that was not asked for is handed back.
    pub fn launched<H>(&mut self, state: &mut LlmServerState<H>, child: H) -> (refused: Option<H>)
        ensures
            (Progress { flow: final(self)@, state: final(state)@ }) == (Progress {
                flow: old(self)@,
                state: old(state)@,
            }).launched(child),
            refused == if old(self)@ is Launching {
                None
            } else {
                Some(child)
            },
    {
        match &self.stage {
            FlowStage::Launching(_, _) => {
                state.spawn_succeeded(child);
                self.stage = FlowStage::WarmingUp;
                None
            },
            _ => Some(child),
        }
    }

    /// Takes note that the launch failed: the attempt is forgotten in the run
    /// state and the start is over, with the error kept for `error_message`.
    /// Nothing is tried again.
    pub fn launch_failed<H>(
        &mut self,
        state: &mut LlmServerState<H>,
        failure: SpawnFailure,
        detail: String,
    )
        ensures
            (Progress { flow: final(self)@, state: final(state)@ }) == (Progress {
                flow: old(self)@,
                state: old(state)@,
            }).launch_failed(failure, detail@),
    {
        match &self.stage {
            FlowStage::Launching(_, _) => {
                let error = state.spawn_failed(failure, detail);
                self.stage = FlowStage::Failed(error);
            },
            _ => {},
        }
    }

    /// Takes note that the warm-up is over: so is the start, with success.
    pub fn warmed_up(&mut self)
        ensures
            final(self)@ == old(self)@.warmed_up(),
    {
        match &self.stage {
            FlowStage::WarmingUp => {
                self.stage = FlowStage::Finished;
            },
            _ => {},
        }
    }

    /// The arguments for the launch that is due; `None` where none is due.
    pub fn launch_args(&self) -> (args: Option<Vec<String>>)
        ensures
            match args {
                Some(list) => self@ matches FlowView::Launching(port, _) && list.deep_view()
                    == launch_arguments(port),
                None => !(self@ is Launching),
            },
    {
        match &self.stage {
            FlowStage::Launching(port, _) => Some(sidecar_args(*port)),
            _ => None,
        }
    }

    /// Whether the start goes on without having found a free port: the scan
    /// came to nothing and the default port is used, busy as it may be. This
    /// is no failure of the start.
    pub fn port_unavailable(&self) -> (unavailable: bool)
        ensures
            unavailable == (self@ matches FlowView::Launching(_, exhausted) && exhausted),
    {
        match &self.stage {
            FlowStage::Launching(_, exhausted) => *exhausted,
            _ => false,
        }
    }

    /// The text of the error of a start that has failed; `None` for any other.
    pub fn error_message(&self) -> (message: Option<String>)
        ensures
            match message {
                Some(text) => self@ is Failed && text@ == self@->Failed_0.message_text(),
                None => !(self@ is Failed),
            },
    {
        match &self.stage {
            FlowStage::Failed(error) => Some(error.message()),
            _ => None,
        }
    }
}

impl<H> Progress<H> {
    /// After `answers`, one after the other.
    pub open spec fn answered_all(self, answers: Seq<bool>) -> Self
        decreases answers.len(),
    {
        if answers.len() == 0 {
            self
        } else {
            self.answered(answers[0]).answered_all(answers.skip(1))
        }
    }
}

proof fn lemma_answers_outside_allocation<H>(progress: Progress<H>, answers: Seq<bool>)
    requires
        !(progress.flow is Allocating),
    ensures
        progress.answered_all(answers) == progress,
    decreases answers.len(),
{
    if answers.len() > 0 {
        lemma_answers_outside_allocation(progress, answers.skip(1));
    }
}

proof fn lemma_answers_follow_the_allocator<H>(
    state: RunState<H>,
    phase: AllocPhase,
    answers: Seq<bool>,
)
    requires
        !(phase is Chosen),
    ensures
        (Progress { flow: FlowView::Allocating(phase), state }).answered_all(answers)
            == match after_answers(DEFAULT_PORT, phase, answers) {
            AllocPhase::Chosen { port, exhausted } => Progress {
                flow: FlowView::Launching(port, exhausted),
                state: state.on_port(port),
            },
            other => Progress { flow: FlowView::Allocating(other), state },
        },
    decreases answers.len(),
{
    if answers.len() > 0 {
        let next = next_phase(DEFAULT_PORT, phase, answers[0]);
        let rest = answers.skip(1);
        let progress = Progress { flow: FlowView::Allocating(phase), state };
        if next is Chosen {
            lemma_answers_outside_allocation(progress.answered(answers[0]), rest);
            lemma_chosen_is_final(DEFAULT_PORT, next, rest);
        } else {
            lemma_answers_follow_the_allocator(state, next, rest);
        }
    }
}

/// A start on a server that is not running always gets as far as the launch,
/// and by then the run state holds the port that the allocation ends on.
///
/// `answers` holds the outcomes in the order in which they are asked for: the
/// probe of the default port, the attempt to free it, the probes of the ports
/// above it.
pub proof fn lemma_start_records_the_port<H>(state: RunState<H>, answers: Seq<bool>)
    requires
        state.child is None,
        answers.len() >= 2 + scan_limit(DEFAULT_PORT as int),
    ensures
        Progress::begin(state).answered_all(answers) == (Progress {
            flow: FlowView::Launching(
                allocated_port(DEFAULT_PORT, answers[0], answers[1], answers.skip(2)) as u16,
                allocation_exhausted(DEFAULT_PORT, answers[0], answers[1], answers.skip(2)),
            ),
            state: state.begun().on_port(
                allocated_port(DEFAULT_PORT, answers[0], answers[1], answers.skip(2)) as u16,
            ),
        }),
        Progress::begin(state).answered_all(answers).state.start_attempted,
        Progress::begin(state).answered_all(answers).flow.pending() == StartStep::Launch(
            Progress::begin(state).answered_all(answers).state.port,
        ),
{
    lemma_allocation_outcome(DEFAULT_PORT, answers);
    lemma_answers_follow_the_allocator(state.begun(), AllocPhase::CheckPreferred, answers);
}

/// A start whose launch succeeds ends with the server running: the handle is
/// in the run state, the attempt is marked, and the port is the one the server
/// was launched on.
pub proof fn lemma_successful_start<H>(
    state: RunState<H>,
    port: u16,
    exhausted: bool,
    child: H,
)
    requires
        state.child is None,
    ensures
        (Progress { flow: FlowView::Launching(port, exhausted), state: state.begun().on_port(port) }).launched(
            child,
        ).warmed_up() == (Progress {
            flow: FlowView::Finished,
            state: RunState { child: Some(child), start_attempted: true, port },
        }),
        (Progress { flow: FlowView::Launching(port, exhausted), state: state.begun().on_port(port) }).launched(
            child,
        ).warmed_up().state.stage() == Stage::Running,
{
}

/// A start whose launch fails ends with the error and an idle supervisor: the
/// next start is a new attempt.
pub proof fn lemma_failed_start<H>(
    state: RunState<H>,
    port: u16,
    exhausted: bool,
    failure: SpawnFailure,
    detail: Seq<char>,
)
    requires
        state.child is None,
    ensures
        (Progress {
            flow: FlowView::Launching(port, exhausted),
            state: state.begun().on_port(port),
        }).launch_failed(failure, detail) == (Progress {
            flow: FlowView::Failed(StartFailure { failure, detail }),
            state: RunState::<H> { child: None, start_attempted: false, port },
        }),
        (Progress {
            flow: FlowView::Launching(port, exhausted),
            state: state.begun().on_port(port),
        }).launch_failed(failure, detail).state.stage() == Stage::Idle,
{
}

} // verus!

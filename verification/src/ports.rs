use vstd::prelude::*;

verus! {

/// The port the inference server is started on when nothing else holds it.
pub const DEFAULT_PORT: u16 = 1234;

/// How many ports a scan examines at most.
pub const PORT_SCAN_RANGE: u16 = 10;

/// How many ports a scan from `start` looks at, given `reports` answers: at most
/// `PORT_SCAN_RANGE`, no more than there are answers, and none past port 65535.
pub open spec fn scan_window(start: int, reports: int) -> int {
    let by_range = if reports < PORT_SCAN_RANGE as int {
        reports
    } else {
        PORT_SCAN_RANGE as int
    };
    if 65536 - start < by_range {
        65536 - start
    } else {
        by_range
    }
}

/// `i` is the first position below `window` that `available` reports free.
pub open spec fn is_first_free(available: Seq<bool>, window: int, i: int) -> bool {
    &&& 0 <= i < window
    &&& i < available.len()
    &&& available[i]
    &&& forall|j: int| 0 <= j < i ==> !#[trigger] available[j]
}

/// The first position below `window` that `available` reports free, if there is one.
pub open spec fn first_free(available: Seq<bool>, window: int) -> Option<int> {
    if exists|i: int| is_first_free(available, window, i) {
        Some(choose|i: int| is_first_free(available, window, i))
    } else {
        None
    }
}

/// The port a scan from `start` settles on: the first one reported free, where
/// `available[i]` is the report for port `start + i`; `start` itself when none is.
pub open spec fn scan_choice(start: int, available: Seq<bool>) -> int {
    match first_free(available, scan_window(start, available.len() as int)) {
        Some(i) => start + i,
        None => start,
    }
}

/// At most one position is the first free one.
pub proof fn lemma_first_free_unique(available: Seq<bool>, window: int, i: int)
    requires
        is_first_free(available, window, i),
    ensures
        first_free(available, window) == Some(i),
{
    let k = choose|k: int| is_first_free(available, window, k);
    if k < i {
        assert(!available[k]);
    } else if i < k {
        assert(!available[i]);
    }
}

/// With nothing reported free below `window`, there is no first free position.
pub proof fn lemma_first_free_none(available: Seq<bool>, window: int)
    requires
        forall|j: int| 0 <= j < window && j < available.len() ==> !#[trigger] available[j],
    ensures
        first_free(available, window) is None,
{
    if exists|i: int| is_first_free(available, window, i) {
        let k = choose|k: int| is_first_free(available, window, k);
        assert(!available[k]);
    }
}

/// Picks the first free port of a scan that starts at `start_port`.
///
/// `available[i]` tells whether port `start_port + i` was found free. Only the
/// first `PORT_SCAN_RANGE` reports count, and only ports up to 65535. When none
/// of them is free the scan falls back to `start_port`.
pub fn find_available_port(start_port: u16, available: &[bool]) -> (port: u16)
    ensures
        port == scan_choice(start_port as int, available@),
{
    let ghost window = scan_window(start_port as int, available@.len() as int);
    let mut offset: u16 = 0;
    while offset < PORT_SCAN_RANGE && (offset as usize) < available.len() && offset <= 65535
        - start_port
        invariant
            0 <= offset <= window,
            window == scan_window(start_port as int, available@.len() as int),
            forall|j: int| 0 <= j < offset ==> !#[trigger] available@[j],
        decreases PORT_SCAN_RANGE - offset,
    {
        if available[offset as usize] {
            proof {
                lemma_first_free_unique(available@, window, offset as int);
            }
            return start_port + offset;
        }
        offset = offset + 1;
    }
    proof {
        lemma_first_free_none(available@, window);
    }
    start_port
}

/// What the caller of a `PortAllocator` has to do next.
#[derive(Clone, Copy, Debug, PartialEq, Eq, Structural)]
pub enum PortStep {
    /// Find out whether something listens on the port, and report `true` if
    /// nothing does.
    Probe(u16),
    /// Try to end the process that holds the port, and report `true` if that
    /// worked.
    Release(u16),
    /// The allocation is over: start the server on this port.
    Bind(u16),
}

/// Where an allocation stands.
#[derive(Clone, Copy, Debug, PartialEq, Eq, Structural)]
pub enum AllocPhase {
    /// Waiting to hear whether the preferred port is free.
    CheckPreferred,
    /// The preferred port is busy; waiting to hear whether it could be freed.
    Releasing,
    /// Waiting to hear whether the port `offset` above the preferred one is free.
    Scanning { offset: u16 },
    /// Done. `exhausted` tells that no port was found free and `port` is the
    /// preferred one all the same.
    Chosen { port: u16, exhausted: bool },
}

/// How many ports above `preferred` a scan may look at.
pub open spec fn scan_limit(preferred: int) -> int {
    scan_window(preferred + 1, PORT_SCAN_RANGE as int)
}

/// The step that a phase asks for.
pub open spec fn pending_step(preferred: u16, phase: AllocPhase) -> PortStep {
    match phase {
        AllocPhase::CheckPreferred => PortStep::Probe(preferred),
        AllocPhase::Releasing => PortStep::Release(preferred),
        AllocPhase::Scanning { offset } => PortStep::Probe((preferred + offset) as u16),
        AllocPhase::Chosen { port, .. } => PortStep::Bind(port),
    }
}

/// The phase that follows `phase` once the pending step was answered with
/// `positive`.
pub open spec fn next_phase(preferred: u16, phase: AllocPhase, positive: bool) -> AllocPhase {
    match phase {
        AllocPhase::CheckPreferred => if positive {
            AllocPhase::Chosen { port: preferred, exhausted: false }
        } else {
            AllocPhase::Releasing
        },
        AllocPhase::Releasing => if positive {
            AllocPhase::Chosen { port: preferred, exhausted: false }
        } else if scan_limit(preferred as int) > 0 {
            AllocPhase::Scanning { offset: 1 }
        } else {
            AllocPhase::Chosen { port: preferred, exhausted: true }
        },
        AllocPhase::Scanning { offset } => if positive {
            AllocPhase::Chosen { port: (preferred + offset) as u16, exhausted: false }
        } else if offset < scan_limit(preferred as int) {
            AllocPhase::Scanning { offset: (offset + 1) as u16 }
        } else {
            AllocPhase::Chosen { port: preferred, exhausted: true }
        },
        AllocPhase::Chosen { .. } => phase,
    }
}

/// A phase that an allocation for `preferred` can be in.
pub open spec fn phase_valid(preferred: u16, phase: AllocPhase) -> bool {
    match phase {
        AllocPhase::Scanning { offset } => 1 <= offset <= scan_limit(preferred as int),
        AllocPhase::Chosen { port, exhausted } => {
            &&& preferred <= port <= preferred + scan_limit(preferred as int)
            &&& exhausted ==> port == preferred
        },
        _ => true,
    }
}

/// Chooses the port for the inference server, one question at a time.
///
/// The allocator itself touches no socket and no process. `pending` says what
/// to find out, `answer` takes the outcome, and after at most twelve answers
/// `pending` is `PortStep::Bind`.
#[derive(Clone, Copy, Debug)]
pub struct PortAllocator {
    preferred: u16,
    phase: AllocPhase,
}

impl PortAllocator {
    #[verifier::type_invariant]
    spec fn inv(self) -> bool {
        phase_valid(self.preferred, self.phase)
    }

    /// The port that was asked for.
    pub closed spec fn preferred(&self) -> u16 {
        self.preferred
    }

    /// Where the allocation stands.
    pub closed spec fn phase(&self) -> AllocPhase {
        self.phase
    }

    /// Starts an allocation that would like to have `preferred`.
    pub fn new(preferred: u16) -> (allocator: Self)
        ensures
            allocator.preferred() == preferred,
            allocator.phase() == AllocPhase::CheckPreferred,
    {
        PortAllocator { preferred, phase: AllocPhase::CheckPreferred }
    }

    /// What has to be done next.
    pub fn pending(&self) -> (step: PortStep)
        ensures
            step == pending_step(self.preferred(), self.phase()),
            phase_valid(self.preferred(), self.phase()),
    {
        proof {
            use_type_invariant(self);
        }
        match self.phase {
            AllocPhase::CheckPreferred => PortStep::Probe(self.preferred),
            AllocPhase::Releasing => PortStep::Release(self.preferred),
            AllocPhase::Scanning { offset } => PortStep::Probe(self.preferred + offset),
            AllocPhase::Chosen { port, .. } => PortStep::Bind(port),
        }
    }

    /// Takes the outcome of the pending step: for a probe, whether the port is
    /// free; for a release, whether the port was freed. Once a port is chosen,
    /// answers change nothing.
    pub fn answer(&mut self, positive: bool)
        ensures
            final(self).preferred() == old(self).preferred(),
            final(self).phase() == next_phase(old(self).preferred(), old(self).phase(), positive),
    {
        proof {
            use_type_invariant(&*self);
        }
        let preferred = self.preferred;
        let room: u16 = if 65535 - preferred < PORT_SCAN_RANGE {
            65535 - preferred
        } else {
            PORT_SCAN_RANGE
        };
        assert(room == scan_limit(preferred as int));
        let next = match self.phase {
            AllocPhase::CheckPreferred => if positive {
                AllocPhase::Chosen { port: preferred, exhausted: false }
            } else {
                AllocPhase::Releasing
            },
            AllocPhase::Releasing => if positive {
                AllocPhase::Chosen { port: preferred, exhausted: false }
            } else if room > 0 {
                AllocPhase::Scanning { offset: 1 }
            } else {
                AllocPhase::Chosen { port: preferred, exhausted: true }
            },
            AllocPhase::Scanning { offset } => if positive {
                AllocPhase::Chosen { port: preferred + offset, exhausted: false }
            } else if offset < room {
                AllocPhase::Scanning { offset: offset + 1 }
            } else {
                AllocPhase::Chosen { port: preferred, exhausted: true }
            },
            AllocPhase::Chosen { port, exhausted } => AllocPhase::Chosen { port, exhausted },
        };
        self.phase = next;
    }

    /// The chosen port, once there is one, with the mark of a scan that found
    /// nothing free.
    pub fn outcome(&self) -> (outcome: Option<(u16, bool)>)
        ensures
            outcome == match self.phase() {
                AllocPhase::Chosen { port, exhausted } => Some((port, exhausted)),
                _ => None,
            },
    {
        match self.phase {
            AllocPhase::Chosen { port, exhausted } => Some((port, exhausted)),
            _ => None,
        }
    }

    /// The chosen port, once there is one.
    pub fn chosen(&self) -> (port: Option<u16>)
        ensures
            port == match self.phase() {
                AllocPhase::Chosen { port, .. } => Some(port),
                _ => None,
            },
    {
        match self.phase {
            AllocPhase::Chosen { port, .. } => Some(port),
            _ => None,
        }
    }
}

/// The phase reached from `phase` when the pending steps are answered, one
/// after the other, by `answers`.
pub open spec fn after_answers(preferred: u16, phase: AllocPhase, answers: Seq<bool>) -> AllocPhase
    decreases answers.len(),
{
    if answers.len() == 0 {
        phase
    } else {
        after_answers(preferred, next_phase(preferred, phase, answers[0]), answers.skip(1))
    }
}

/// The port an allocation ends on, said outright: the preferred port when it
/// is free or could be freed; else the first port above it that `scan` reports
/// free (`scan[i]` stands for port `preferred + 1 + i`); else the preferred
/// port after all.
pub open spec fn allocated_port(
    preferred: u16,
    preferred_free: bool,
    released: bool,
    scan: Seq<bool>,
) -> int {
    if preferred_free || released {
        preferred as int
    } else {
        match first_free(scan, scan_limit(preferred as int)) {
            Some(i) => preferred + 1 + i,
            None => preferred as int,
        }
    }
}

/// Whether an allocation ends without having found a free port.
pub open spec fn allocation_exhausted(
    preferred: u16,
    preferred_free: bool,
    released: bool,
    scan: Seq<bool>,
) -> bool {
    !preferred_free && !released && first_free(scan, scan_limit(preferred as int)) is None
}

/// Once a port is chosen no answer changes the phase.
pub proof fn lemma_chosen_is_final(preferred: u16, phase: AllocPhase, answers: Seq<bool>)
    requires
        phase is Chosen,
    ensures
        after_answers(preferred, phase, answers) == phase,
    decreases answers.len(),
{
    if answers.len() > 0 {
        lemma_chosen_is_final(preferred, phase, answers.skip(1));
    }
}

proof fn lemma_scan_outcome(preferred: u16, offset: u16, scan: Seq<bool>)
    requires
        1 <= offset <= scan_limit(preferred as int),
        scan.len() >= scan_limit(preferred as int),
        forall|j: int| 0 <= j < offset - 1 ==> !#[trigger] scan[j],
    ensures
        after_answers(preferred, AllocPhase::Scanning { offset }, scan.skip(offset - 1))
            == (AllocPhase::Chosen {
            port: allocated_port(preferred, false, false, scan) as u16,
            exhausted: allocation_exhausted(preferred, false, false, scan),
        }),
        preferred <= allocated_port(preferred, false, false, scan) <= preferred + scan_limit(
            preferred as int,
        ),
    decreases scan_limit(preferred as int) - offset,
{
    let limit = scan_limit(preferred as int);
    let answers = scan.skip(offset - 1);
    let rest = answers.skip(1);
    assert(answers[0] == scan[offset - 1]);
    assert(rest =~= scan.skip(offset as int));
    let next = next_phase(preferred, AllocPhase::Scanning { offset }, answers[0]);
    if answers[0] {
        lemma_first_free_unique(scan, limit, offset - 1);
        lemma_chosen_is_final(preferred, next, rest);
    } else if offset < limit {
        assert forall|j: int| 0 <= j < offset implies !#[trigger] scan[j] by {
            if j == offset - 1 {
            }
        }
        lemma_scan_outcome(preferred, (offset + 1) as u16, scan);
    } else {
        assert forall|j: int| 0 <= j < limit && j < scan.len() implies !#[trigger] scan[j] by {
            if j == offset - 1 {
            }
        }
        lemma_first_free_none(scan, limit);
        lemma_chosen_is_final(preferred, next, rest);
    }
}

/// An allocation always ends, and on the port that `allocated_port` names.
///
/// `answers` holds the outcomes in the order in which they are asked for: first
/// the probe of the preferred port, then the attempt to free it, then the probes
/// of the ports above it. With an answer for each of them at hand the allocator
/// has chosen, whatever the answers are.
pub proof fn lemma_allocation_outcome(preferred: u16, answers: Seq<bool>)
    requires
        answers.len() >= 2 + scan_limit(preferred as int),
    ensures
        after_answers(preferred, AllocPhase::CheckPreferred, answers) == (AllocPhase::Chosen {
            port: allocated_port(preferred, answers[0], answers[1], answers.skip(2)) as u16,
            exhausted: allocation_exhausted(preferred, answers[0], answers[1], answers.skip(2)),
        }),
        preferred <= allocated_port(preferred, answers[0], answers[1], answers.skip(2))
            <= preferred + scan_limit(preferred as int),
{
    let scan = answers.skip(2);
    let first = next_phase(preferred, AllocPhase::CheckPreferred, answers[0]);
    let tail = answers.skip(1);
    assert(tail[0] == answers[1]);
    assert(tail.skip(1) =~= scan);
    assert(after_answers(preferred, AllocPhase::CheckPreferred, answers) == after_answers(
        preferred,
        first,
        tail,
    ));
    if answers[0] {
        lemma_chosen_is_final(preferred, first, tail);
    } else {
        let second = next_phase(preferred, first, answers[1]);
        assert(after_answers(preferred, first, tail) == after_answers(preferred, second, scan));
        if answers[1] {
            lemma_chosen_is_final(preferred, second, scan);
        } else if scan_limit(preferred as int) > 0 {
            assert(scan.skip(0) =~= scan);
            lemma_scan_outcome(preferred, 1, scan);
        } else {
            lemma_first_free_none(scan, scan_limit(preferred as int));
            lemma_chosen_is_final(preferred, second, scan);
        }
    }
}

/// A busy preferred port is either freed and kept, or left for another port
/// within the scan range, as long as the scan finds one free.
///
/// Without a free port in the scan the allocation keeps the preferred port,
/// busy as it is, and says so through `exhausted`.
pub proof fn lemma_busy_port_is_freed_or_left(preferred: u16, released: bool, scan: Seq<bool>)
    requires
        released || first_free(scan, scan_limit(preferred as int)) is Some,
    ensures
        released ==> allocated_port(preferred, false, released, scan) == preferred,
        !released ==> {
            let port = allocated_port(preferred, false, released, scan);
            &&& preferred < port <= preferred + PORT_SCAN_RANGE
            &&& port <= 65535
            &&& scan[port - preferred - 1]
        },
        !allocation_exhausted(preferred, false, released, scan),
{
    if !released {
        let limit = scan_limit(preferred as int);
        let i = choose|i: int| is_first_free(scan, limit, i);
        assert(is_first_free(scan, limit, i));
    }
}

/// Where the preferred port stays busy, the allocation ends where a scan from
/// the port above it ends, unless that scan finds nothing: then the scan names
/// its start, and the allocation the preferred port.
pub proof fn lemma_allocation_follows_the_scan(preferred: u16, scan: Seq<bool>)
    requires
        preferred < 65535,
        scan.len() >= PORT_SCAN_RANGE,
    ensures
        first_free(scan, scan_limit(preferred as int)) is Some ==> allocated_port(
            preferred,
            false,
            false,
            scan,
        ) == scan_choice(preferred + 1, scan),
        first_free(scan, scan_limit(preferred as int)) is None ==> allocated_port(
            preferred,
            false,
            false,
            scan,
        ) == preferred && scan_choice(preferred + 1, scan) == preferred + 1,
{
}

} // verus!

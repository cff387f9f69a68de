use llm_sidecar::ports::{
    find_available_port, AllocPhase, PortAllocator, PortStep, DEFAULT_PORT, PORT_SCAN_RANGE,
};

fn run(preferred: u16, answers: &[bool]) -> (PortAllocator, Vec<PortStep>) {
    let mut allocator = PortAllocator::new(preferred);
    let mut asked = Vec::new();
    for answer in answers {
        asked.push(allocator.pending());
        allocator.answer(*answer);
    }
    (allocator, asked)
}

#[test]
fn constants_are_the_documented_ones() {
    assert_eq!(DEFAULT_PORT, 1234);
    assert_eq!(PORT_SCAN_RANGE, 10);
}

#[test]
fn scan_takes_the_first_free_port() {
    let reports = vec![false, false, true, true, false, false, false, false, false, false];
    assert_eq!(find_available_port(1235, &reports), 1237);
}

#[test]
fn scan_takes_its_start_when_that_is_free() {
    let reports = vec![true; 10];
    assert_eq!(find_available_port(1235, &reports), 1235);
}

#[test]
fn scan_falls_back_to_its_start() {
    let reports = vec![false; 10];
    assert_eq!(find_available_port(1235, &reports), 1235);
}

#[test]
fn scan_looks_at_ten_ports_and_no_more() {
    let mut reports = vec![false; 10];
    reports.push(true);
    assert_eq!(find_available_port(2000, &reports), 2000);
    let mut reports = vec![false; 9];
    reports.push(true);
    assert_eq!(find_available_port(2000, &reports), 2009);
}

#[test]
fn scan_with_few_reports_uses_what_it_has() {
    assert_eq!(find_available_port(2000, &[]), 2000);
    assert_eq!(find_available_port(2000, &[false, true]), 2001);
}

#[test]
fn scan_stops_at_the_last_port() {
    let reports = vec![false, false, true, true];
    assert_eq!(find_available_port(65534, &reports), 65534);
    let reports = vec![false, true, true, true];
    assert_eq!(find_available_port(65534, &reports), 65535);
    assert_eq!(find_available_port(65535, &[true]), 65535);
}

#[test]
fn allocator_keeps_a_free_default_port() {
    let mut allocator = PortAllocator::new(DEFAULT_PORT);
    assert_eq!(allocator.pending(), PortStep::Probe(1234));
    assert_eq!(allocator.chosen(), None);
    allocator.answer(true);
    assert_eq!(allocator.pending(), PortStep::Bind(1234));
    assert_eq!(allocator.chosen(), Some(1234));
    assert_eq!(allocator.outcome(), Some((1234, false)));
}

#[test]
fn allocator_tries_to_free_a_busy_port_first() {
    let (allocator, asked) = run(1234, &[false, true]);
    assert_eq!(asked, vec![PortStep::Probe(1234), PortStep::Release(1234)]);
    assert_eq!(allocator.pending(), PortStep::Bind(1234));
    assert_eq!(allocator.outcome(), Some((1234, false)));
}

#[test]
fn allocator_scans_upwards_when_the_port_stays_busy() {
    let (allocator, asked) = run(1234, &[false, false, false, false, true]);
    assert_eq!(
        asked,
        vec![
            PortStep::Probe(1234),
            PortStep::Release(1234),
            PortStep::Probe(1235),
            PortStep::Probe(1236),
            PortStep::Probe(1237),
        ]
    );
    assert_eq!(allocator.pending(), PortStep::Bind(1237));
    assert_eq!(allocator.outcome(), Some((1237, false)));
}

#[test]
fn allocator_takes_the_last_port_of_the_scan() {
    let mut answers = vec![false; 11];
    answers.push(true);
    let (allocator, asked) = run(1234, &answers);
    assert_eq!(asked[11], PortStep::Probe(1244));
    assert_eq!(allocator.outcome(), Some((1244, false)));
}

#[test]
fn allocator_falls_back_to_the_preferred_port() {
    let answers = vec![false; 12];
    let (allocator, asked) = run(1234, &answers);
    assert_eq!(asked.len(), 12);
    assert_eq!(asked[11], PortStep::Probe(1244));
    assert_eq!(allocator.pending(), PortStep::Bind(1234));
    assert_eq!(allocator.outcome(), Some((1234, true)));
}

#[test]
fn allocator_ignores_answers_once_it_has_chosen() {
    let (mut allocator, _) = run(1234, &[false, false, true]);
    assert_eq!(allocator.outcome(), Some((1235, false)));
    allocator.answer(false);
    allocator.answer(true);
    assert_eq!(allocator.outcome(), Some((1235, false)));
    assert_eq!(allocator.pending(), PortStep::Bind(1235));
}

#[test]
fn allocator_has_nowhere_to_scan_above_the_last_port() {
    let (allocator, asked) = run(65535, &[false, false]);
    assert_eq!(asked, vec![PortStep::Probe(65535), PortStep::Release(65535)]);
    assert_eq!(allocator.outcome(), Some((65535, true)));
    let (allocator, asked) = run(65533, &[false, false, false, false]);
    assert_eq!(asked[2], PortStep::Probe(65534));
    assert_eq!(asked[3], PortStep::Probe(65535));
    assert_eq!(allocator.outcome(), Some((65533, true)));
}

#[test]
fn allocator_always_ends_within_twelve_answers() {
    for pattern in 0u32..4096 {
        let answers: Vec<bool> = (0..12).map(|bit| pattern & (1 << bit) != 0).collect();
        let (allocator, _) = run(DEFAULT_PORT, &answers);
        let (port, exhausted) = allocator.outcome().expect("a port is always chosen");
        assert!(port >= 1234 && port <= 1244);
        if answers[0] || answers[1] {
            assert_eq!(port, 1234);
            assert!(!exhausted);
        } else {
            let scan = &answers[2..];
            let expected = find_available_port(1235, scan);
            if scan.iter().any(|free| *free) {
                assert_eq!(port, expected);
                assert!(port > 1234);
                assert!(!exhausted);
            } else {
                assert_eq!(port, 1234);
                assert!(exhausted);
            }
        }
    }
}

#[test]
fn phases_can_be_compared() {
    assert_ne!(AllocPhase::CheckPreferred, AllocPhase::Releasing);
    assert_eq!(AllocPhase::Scanning { offset: 2 }, AllocPhase::Scanning { offset: 2 });
}

use cargo_embed::attach::{
    attach_context, rtt_start, scan_region, Attempt, AttachError, Next, RttAttach, RttStart, ScanRegion,
};

type Outcome = Result<Option<&'static str>, Option<&'static str>>;

/// Attaches along the given looks at the clock and attempts; gives the outcome and the
/// numbers of the attempts that were made.
fn attach(timeout: u128, rounds: Vec<(u128, Attempt<&'static str, &'static str>)>) -> (Outcome, Vec<u64>) {
    let mut state = RttAttach::start(timeout);
    let mut numbers = Vec::new();
    for (elapsed, attempt) in rounds {
        let next = match state.at(elapsed) {
            Next::Attempt(state, number) => {
                numbers.push(number);
                state.tried(attempt)
            }
            next => next,
        };
        match next {
            Next::Pause(waiting, millis) => {
                assert_eq!(millis, 10);
                state = waiting;
            }
            Next::Finished(Ok(target)) => return (Ok(target), numbers),
            Next::Finished(Err(AttachError::Cause(error))) => return (Err(Some(error)), numbers),
            Next::Finished(Err(AttachError::TimedOut)) => return (Err(None), numbers),
            Next::Attempt(_, _) => unreachable!(),
        }
    }
    panic!("not finished");
}

#[test]
fn attached_after_retries() {
    let rounds = vec![
        (0, Attempt::NotReady("a")),
        (10, Attempt::NotReady("b")),
        (20, Attempt::Attached("target")),
        (30, Attempt::NoRtt),
    ];
    assert_eq!(attach(25, rounds), (Ok(Some("target")), vec![1, 2, 3]));
}

#[test]
fn the_last_error_is_reported_when_time_is_up() {
    let rounds = vec![
        (0, Attempt::NotReady("a")),
        (10, Attempt::NotReady("b")),
        (20, Attempt::Attached("too late")),
    ];
    assert_eq!(attach(20, rounds), (Err(Some("b")), vec![1, 2]));
}

#[test]
fn no_attempt_without_time() {
    assert_eq!(attach(0, vec![(0, Attempt::Attached("too late"))]), (Err(None), vec![]));
    assert_eq!(AttachError::<()>::timed_out_message(), "Error setting up RTT");
}

#[test]
fn the_timeout_bounds_the_attempts() {
    let pause = 10_000_000;
    for timeout in [1, pause, pause + 1, 3 * pause, 10 * pause - 1] {
        let rounds = (0..20).map(|k| (k * pause, Attempt::NotReady("busy"))).collect();
        let (outcome, numbers) = attach(timeout, rounds);
        assert_eq!(outcome, Err(Some("busy")));
        assert!((numbers.len() as u128 - 1) * pause < timeout);
        assert_eq!(numbers, (1..=numbers.len() as u64).collect::<Vec<u64>>());
    }
}

#[test]
fn a_failure_to_attach_has_a_context() {
    assert_eq!(attach_context(), "Failed to attach to RTT");
}

#[test]
fn no_retry_without_rtt_or_core() {
    assert_eq!(attach(5, vec![(0, Attempt::NoRtt)]), (Ok(None), vec![1]));
    assert_eq!(
        attach(5, vec![(0, Attempt::NotReady("a")), (4, Attempt::CoreLost("gone"))]),
        (Err(Some("gone")), vec![1, 2])
    );
}

#[test]
fn the_symbol_tells_the_address() {
    assert!(matches!(scan_region(Some(0x2000_0400), ScanRegion::Ram), ScanRegion::Exact(0x2000_0400)));
    assert!(matches!(scan_region(Some(0x1_0000_0008), ScanRegion::Ram), ScanRegion::Exact(8)));
    assert!(matches!(scan_region(None, ScanRegion::Ram), ScanRegion::Ram));
    match scan_region(None, ScanRegion::Ranges(vec![(1, 2)])) {
        ScanRegion::Ranges(ranges) => assert_eq!(ranges, vec![(1, 2)]),
        other => panic!("{other:?}"),
    }
}

#[test]
fn missing_metadata_is_pointed_out() {
    assert_eq!(rtt_start(None, true), RttStart::Skip);
    assert_eq!(rtt_start(Some(false), true), RttStart::Show { warn_defmt: true });
    assert_eq!(rtt_start(Some(true), true), RttStart::Show { warn_defmt: false });
    assert_eq!(rtt_start(Some(false), false), RttStart::Show { warn_defmt: false });
}

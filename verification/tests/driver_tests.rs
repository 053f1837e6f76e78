use cassette::{block_on, yield_now, Cassette, HintFlag, Poll, UsageError};

/// The yield primitive resumed through the driver reports "still running"
/// first, completion second, in that exact order.
#[test]
fn yield_two_steps_in_order() {
    let mut cm = Cassette::new(yield_now(), None);
    assert_eq!(cm.poll_on(), Ok(Poll::Pending));
    assert_eq!(cm.poll_on(), Ok(Poll::Ready(())));
}

/// A third resumption of the yield primitive is the completed-driver usage
/// error.
#[test]
fn yield_third_step_is_usage_error() {
    let mut cm = Cassette::new(yield_now(), None);
    assert_eq!(cm.poll_on(), Ok(Poll::Pending));
    assert_eq!(cm.poll_on(), Ok(Poll::Ready(())));
    assert_eq!(cm.poll_on(), Err(UsageError::AlreadyCompleted));
}

/// Stepping after completion is rejected every time, never silently
/// returning a value again.
#[test]
fn step_after_completion_always_rejected() {
    let mut cm = Cassette::new(yield_now(), None);
    while !cm.is_done() {
        let _ = cm.poll_on().unwrap();
    }
    for _ in 0..5 {
        assert_eq!(cm.poll_on(), Err(UsageError::AlreadyCompleted));
    }
}

/// `is_done` flips exactly when the final value is produced.
#[test]
fn is_done_tracks_completion() {
    let mut cm = Cassette::new(yield_now(), None);
    assert!(!cm.is_done());
    assert_eq!(cm.poll_on(), Ok(Poll::Pending));
    assert!(!cm.is_done());
    assert_eq!(cm.poll_on(), Ok(Poll::Ready(())));
    assert!(cm.is_done());
}

/// Running to completion returns the same value as stepping one call at a
/// time: one pending step for the yield primitive, then the value.
#[test]
fn block_on_matches_stepping_for_yield() {
    let stepped = {
        let mut cm = Cassette::new(yield_now(), None);
        let mut pending: u32 = 0;
        loop {
            match cm.poll_on().unwrap() {
                Poll::Pending => pending += 1,
                Poll::Ready(v) => break (pending, v),
            }
        }
    };
    let run = Cassette::new(yield_now(), None).block_on();
    assert_eq!(stepped, (1, run));
}

/// The convenience runner drives a computation with no hint flag.
#[test]
fn free_block_on_runs_to_completion() {
    #[allow(clippy::let_unit_value)]
    let v = block_on(yield_now());
    assert_eq!(v, ());
}

/// With no flag supplied, the wake hint is unconditionally false.
#[test]
fn wake_hint_without_flag_is_false() {
    let mut cm = Cassette::new(yield_now(), None);
    assert!(!cm.wake_hint());
    assert_eq!(cm.poll_on(), Ok(Poll::Pending));
    assert!(!cm.wake_hint());
    cm.raise_hint();
    assert!(!cm.wake_hint());
}

/// Configuring a flag and issuing one resume-request (the yield primitive
/// requests one on its first resumption) makes the wake hint read true
/// exactly once, then false on every later read until another request.
#[test]
fn wake_hint_true_exactly_once_per_raise() {
    let mut cm = Cassette::new(yield_now(), Some(HintFlag::new()));
    assert!(!cm.wake_hint());
    assert_eq!(cm.poll_on(), Ok(Poll::Pending));
    assert!(cm.wake_hint());
    assert!(!cm.wake_hint());
    assert!(!cm.wake_hint());
    assert_eq!(cm.poll_on(), Ok(Poll::Ready(())));
    assert!(!cm.wake_hint());
}

/// An outside raise behaves like a resume-request: observed once, then
/// cleared by the read.
#[test]
fn raise_hint_observed_once() {
    let mut cm = Cassette::new(yield_now(), Some(HintFlag::new()));
    cm.raise_hint();
    cm.raise_hint();
    assert!(cm.wake_hint());
    assert!(!cm.wake_hint());
}

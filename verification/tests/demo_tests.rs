use cassette::{
    block_on, Cassette, Computation, Demo, DemoRun, LeafStep, Poll, Signal, UsageError,
};

/// One full zero-to-ten-to-zero pass, stepped by hand: state 100 is zeroed
/// on the first resume, climbs to ten across the next ten (one suspension
/// per increment), then walks back to zero across ten more. Completion is
/// reported only after all nested phases finish, with at least one step per
/// suspension: 21 resumes in all for the 20 suspensions.
#[test]
fn zero_to_zero_pass_step_by_step() {
    let demo = Demo { lol: 100 };
    let phases = demo.zero_to_zero();
    let mut run = DemoRun::try_new(demo, phases).expect("runnable from 100");
    let mut sig = Signal::new(None);

    assert_eq!(run.current_state(), 100);
    // Resume 1: the state is zeroed.
    assert!(matches!(run.resume(&mut sig), Poll::Pending));
    assert_eq!(run.current_state(), 0);
    // Resumes 2..=11: ten increments, one suspension each.
    for i in 1..=10u32 {
        assert!(matches!(run.resume(&mut sig), Poll::Pending));
        assert_eq!(run.current_state(), i);
    }
    assert_eq!(run.current_state(), 10);
    // Resumes 12..=20: nine decrements, still running.
    for i in (1..=9u32).rev() {
        assert!(matches!(run.resume(&mut sig), Poll::Pending));
        assert_eq!(run.current_state(), i);
    }
    // Resume 21: the last decrement reaches zero and resolves the run.
    assert!(matches!(run.resume(&mut sig), Poll::Ready(Ok(0))));
    assert_eq!(run.current_state(), 0);
}

/// The same pass through the driver: 20 "still running" steps, then the
/// value, and the step counts match the suspension count.
#[test]
fn zero_to_zero_pass_through_driver() {
    let demo = Demo { lol: 100 };
    let run = DemoRun::try_new(demo, demo.zero_to_zero()).expect("runnable from 100");
    let mut cm = Cassette::new(run, None);
    let mut pending: u32 = 0;
    let value = loop {
        match cm.poll_on().unwrap() {
            Poll::Pending => pending += 1,
            Poll::Ready(v) => break v,
        }
    };
    assert_eq!(pending, 20);
    assert_eq!(value, Ok(0));
    assert!(cm.is_done());
    assert_eq!(cm.poll_on(), Err(UsageError::AlreadyCompleted));
}

/// Running to completion returns the same value the step-by-step pass
/// produced.
#[test]
fn block_on_agrees_with_stepping() {
    let demo = Demo { lol: 100 };
    let stepped = {
        let run = DemoRun::try_new(demo, demo.zero_to_zero()).unwrap();
        let mut cm = Cassette::new(run, None);
        loop {
            if let Poll::Ready(v) = cm.poll_on().unwrap() {
                break v;
            }
        }
    };
    let run = DemoRun::try_new(demo, demo.zero_to_zero()).unwrap();
    assert_eq!(block_on(run), stepped);
}

/// The zero-to-ten phase resolves at ten.
#[test]
fn zero_to_ten_resolves_at_ten() {
    let demo = Demo { lol: 3 };
    let run = DemoRun::try_new(demo, demo.zero_to_ten()).unwrap();
    assert_eq!(block_on(run), Ok(10));
}

/// Three phases run in order; the last one ends at ten.
#[test]
fn fancy_runs_all_three_phases() {
    let demo = Demo { lol: 100 };
    let run = DemoRun::try_new(demo, demo.fancy()).unwrap();
    assert_eq!(block_on(run), Ok(10));
}

/// A composition of custom phases, using the five-start leaf.
#[test]
fn five_to_zero_to_ten_composition() {
    let demo = Demo { lol: 42 };
    let phases = vec![vec![
        LeafStep::StartAtFive,
        LeafStep::SubOneUntilZero,
        LeafStep::AddOneUntilTen,
    ]];
    let run = DemoRun::try_new(demo, phases).unwrap();
    assert_eq!(block_on(run), Ok(10));
}

/// An empty composition resolves immediately to the starting state.
#[test]
fn empty_composition_resolves_to_start() {
    let demo = Demo { lol: 7 };
    let run = DemoRun::try_new(demo, Vec::new()).unwrap();
    let mut cm = Cassette::new(run, None);
    assert_eq!(cm.poll_on(), Ok(Poll::Ready(Ok(7))));
    assert_eq!(cm.poll_on(), Err(UsageError::AlreadyCompleted));
}

/// Compositions that would run a counting leaf past its machine limit are
/// rejected up front.
#[test]
fn unrunnable_compositions_are_rejected() {
    // Subtracting from zero would wrap.
    let demo = Demo { lol: 0 };
    assert!(DemoRun::try_new(demo, vec![vec![LeafStep::SubOneUntilZero]]).is_none());
    // Adding at the integer bound would wrap.
    let demo = Demo { lol: u32::MAX };
    assert!(DemoRun::try_new(demo, vec![vec![LeafStep::AddOneUntilTen]]).is_none());
    // But zeroing first makes both runnable.
    let demo = Demo { lol: u32::MAX };
    let phases = vec![vec![
        LeafStep::StartAtZero,
        LeafStep::AddOneUntilTen,
        LeafStep::SubOneUntilZero,
    ]];
    assert!(DemoRun::try_new(demo, phases).is_some());
}

/// The leaf steps themselves: exact state updates and completion
/// predicates.
#[test]
fn leaf_steps_behave() {
    let mut demo = Demo { lol: 100 };
    assert_eq!(demo.start_at_zero(), Ok(true));
    assert_eq!(demo.lol, 0);
    assert_eq!(demo.start_at_five(), Ok(true));
    assert_eq!(demo.lol, 5);
    assert_eq!(demo.add_one_until_ten(), Ok(false));
    assert_eq!(demo.lol, 6);
    demo.lol = 9;
    assert_eq!(demo.add_one_until_ten(), Ok(true));
    assert_eq!(demo.lol, 10);
    assert_eq!(demo.sub_one_until_zero(), Ok(false));
    assert_eq!(demo.lol, 9);
    demo.lol = 1;
    assert_eq!(demo.sub_one_until_zero(), Ok(true));
    assert_eq!(demo.lol, 0);
}

/// A run never raises the wake hint on its own: the demo leaves issue no
/// resume-requests.
#[test]
fn demo_run_raises_no_hint() {
    let demo = Demo { lol: 100 };
    let run = DemoRun::try_new(demo, demo.zero_to_zero()).unwrap();
    let mut cm = Cassette::new(run, Some(cassette::HintFlag::new()));
    while !cm.is_done() {
        let _ = cm.poll_on().unwrap();
        assert!(!cm.wake_hint());
    }
}

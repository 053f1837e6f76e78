//! The poll-step driver: owns one computation and steps it on demand.

use vstd::prelude::*;

use crate::computation::{Computation, Poll, UsageError};
use crate::signal::{flag_raised, raised_after_request, HintFlag, Signal};

verus! {

/// The abstract state of a driver: whether it has reported completion, how
/// many pending steps are left, and the value the computation resolves to.
pub ghost struct DriverModel<O> {
    pub done: bool,
    pub remaining: nat,
    pub outcome: O,
}

/// One step of the driver, on its abstract state: stepping a completed
/// driver is the usage error; stepping with no suspensions left produces the
/// value and marks the driver done; otherwise the step reports "still
/// running" and counts a suspension down.
pub open spec fn step_model<O>(m: DriverModel<O>) -> (DriverModel<O>, Result<Poll<O>, UsageError>) {
    if m.done {
        (m, Err(UsageError::AlreadyCompleted))
    } else if m.remaining == 0 {
        (
            DriverModel { done: true, remaining: m.remaining, outcome: m.outcome },
            Ok(Poll::Ready(m.outcome)),
        )
    } else {
        (
            DriverModel { done: false, remaining: (m.remaining - 1) as nat, outcome: m.outcome },
            Ok(Poll::Pending),
        )
    }
}

/// The abstract state after `k` steps.
pub open spec fn model_after_steps<O>(m: DriverModel<O>, k: nat) -> DriverModel<O>
    decreases k,
{
    if k == 0 {
        m
    } else {
        step_model(model_after_steps(m, (k - 1) as nat)).0
    }
}

/// The result of the step taken after `k` earlier steps.
pub open spec fn step_result_at<O>(m: DriverModel<O>, k: nat) -> Result<Poll<O>, UsageError> {
    step_model(model_after_steps(m, k)).1
}

/// A single-computation, non-blocking stepper. It exclusively owns one
/// computation, resumes it once per step with the inert completion signal as
/// context, and remembers whether the final value has been handed out.
pub struct Cassette<C: Computation> {
    thing: C,
    signal: Signal,
    done: bool,
}

impl<C: Computation> Cassette<C> {
    /// The driver is intact: its computation's own invariant holds and the
    /// completed marker agrees with the computation.
    pub closed spec fn wf(&self) -> bool {
        self.thing.wf() && self.done == self.thing.completed()
    }

    /// The driver's abstract state.
    pub closed spec fn model(&self) -> DriverModel<C::Output> {
        DriverModel {
            done: self.done,
            remaining: self.thing.remaining(),
            outcome: self.thing.outcome(),
        }
    }

    /// Whether a wake-hint flag was supplied at construction.
    pub closed spec fn hint_configured(&self) -> bool {
        self.signal.configured()
    }

    /// Whether the wake-hint flag is currently raised.
    pub closed spec fn hint_raised(&self) -> bool {
        self.signal.raised()
    }

    /// Create a new Cassette exclusively owning one computation, optionally
    /// connected to a shared wake-hint flag.
    pub fn new(thing: C, flag: Option<HintFlag>) -> (c: Cassette<C>)
        requires
            thing.wf(),
            !thing.completed(),
        ensures
            c.wf(),
            c.model() == (DriverModel {
                done: false,
                remaining: thing.remaining(),
                outcome: thing.outcome(),
            }),
            c.hint_configured() == (flag is Some),
            c.hint_raised() == flag_raised(flag),
    {
        Cassette { thing, signal: Signal::new(flag), done: false }
    }

    /// Perform a single step of the contained computation, resuming it
    /// exactly once. Stepping again after the final value was produced is a
    /// usage error, reported explicitly and leaving the driver untouched.
    pub fn poll_on(&mut self) -> (r: Result<Poll<C::Output>, UsageError>)
        requires
            old(self).wf(),
        ensures
            final(self).wf(),
            final(self).model() == step_model(old(self).model()).0,
            r == step_model(old(self).model()).1,
            final(self).hint_configured() == old(self).hint_configured(),
            old(self).hint_raised() ==> final(self).hint_raised(),
            old(self).model().done ==> *final(self) == *old(self),
    {
        if self.done {
            return Err(UsageError::AlreadyCompleted);
        }
        match self.thing.resume(&mut self.signal) {
            Poll::Pending => Ok(Poll::Pending),
            Poll::Ready(v) => {
                self.done = true;
                Ok(Poll::Ready(v))
            },
        }
    }

    /// Step the contained computation in a tight loop until it resolves,
    /// and return its value.
    pub fn block_on(self) -> (r: C::Output)
        requires
            self.wf(),
            !self.model().done,
        ensures
            r == self.model().outcome,
    {
        let mut cm = self;
        let ghost m0 = cm.model();
        #[verifier::loop_isolation(false)]
        loop
            invariant
                cm.wf(),
                !cm.model().done,
                cm.model().outcome == m0.outcome,
            decreases cm.model().remaining,
        {
            match cm.poll_on() {
                Ok(Poll::Ready(v)) => {
                    return v;
                },
                Ok(Poll::Pending) => {},
                Err(_) => {
                    proof {
                        assert(false);
                    }
                },
            }
        }
    }

    /// Has the contained computation resolved to its final value yet?
    pub fn is_done(&self) -> (r: bool)
        ensures
            r == self.model().done,
    {
        self.done
    }

    /// Read and clear the wake hint: true when a resume-request raised the
    /// flag since the previous check, unconditionally false when no flag was
    /// supplied. The driver's own stepping state is untouched.
    pub fn wake_hint(&mut self) -> (r: bool)
        ensures
            r == old(self).hint_raised(),
            !final(self).hint_raised(),
            final(self).hint_configured() == old(self).hint_configured(),
            final(self).model() == old(self).model(),
            final(self).wf() == old(self).wf(),
    {
        self.signal.take_hint()
    }

    /// Raise the wake hint from outside the polling loop, the way an
    /// interrupt-style context would: it only ever sets the flag, never
    /// clears it, and leaves the driver's stepping state untouched.
    pub fn raise_hint(&mut self)
        ensures
            final(self).hint_raised() == raised_after_request(
                old(self).hint_configured(),
                old(self).hint_raised(),
            ),
            final(self).hint_configured() == old(self).hint_configured(),
            final(self).model() == old(self).model(),
            final(self).wf() == old(self).wf(),
    {
        self.signal.request_resume();
    }
}

/// Run a computation to completion on the current thread, with no wake-hint
/// flag, and return its value.
pub fn block_on<C: Computation>(thing: C) -> (r: C::Output)
    requires
        thing.wf(),
        !thing.completed(),
    ensures
        r == thing.outcome(),
{
    Cassette::new(thing, None).block_on()
}

/// Iterating the driver one more step is the same as taking one step first
/// and iterating on what it leaves behind.
proof fn lemma_model_after_steps_shift<O>(m: DriverModel<O>, k: nat)
    ensures
        model_after_steps(m, k + 1) == model_after_steps(step_model(m).0, k),
    decreases k,
{
    if k == 0 {
        assert(model_after_steps(m, 1) == step_model(model_after_steps(m, 0)).0);
        assert(model_after_steps(m, 0) == m);
        assert(model_after_steps(step_model(m).0, 0) == step_model(m).0);
    } else {
        lemma_model_after_steps_shift(m, (k - 1) as nat);
        assert(model_after_steps(m, k + 1) == step_model(model_after_steps(m, k)).0);
        assert(model_after_steps(step_model(m).0, k) == step_model(
            model_after_steps(step_model(m).0, (k - 1) as nat),
        ).0);
    }
}

/// Law: running to completion and stepping one call at a time agree. From a
/// not-yet-done driver with `k` suspensions left, each of the first `k`
/// steps reports "still running", the step after them produces exactly the
/// outcome — the same value `block_on` returns — and from then on the driver
/// is done, so any further step is the usage error.
pub proof fn lemma_block_on_matches_steps<O>(m: DriverModel<O>, k: nat)
    requires
        !m.done,
        m.remaining == k,
    ensures
        forall|j: nat| j < k ==> step_result_at(m, j) == Ok::<Poll<O>, UsageError>(Poll::Pending),
        step_result_at(m, k) == Ok::<Poll<O>, UsageError>(Poll::Ready(m.outcome)),
        model_after_steps(m, k + 1).done,
    decreases k,
{
    if k == 0 {
        assert(model_after_steps(m, 0) == m);
        assert(step_result_at(m, 0) == step_model(m).1);
        lemma_model_after_steps_shift(m, 0);
        assert(model_after_steps(m, 1) == step_model(m).0);
    } else {
        let m1 = step_model(m).0;
        lemma_block_on_matches_steps(m1, (k - 1) as nat);
        assert forall|j: nat| j < k implies step_result_at(m, j) == Ok::<Poll<O>, UsageError>(
            Poll::Pending,
        ) by {
            if j == 0 {
                assert(model_after_steps(m, 0) == m);
                assert(step_result_at(m, 0) == step_model(m).1);
            } else {
                lemma_model_after_steps_shift(m, (j - 1) as nat);
                assert(model_after_steps(m, j) == model_after_steps(m1, (j - 1) as nat));
                assert(step_result_at(m1, (j - 1) as nat) == Ok::<Poll<O>, UsageError>(
                    Poll::Pending,
                ));
            }
        }
        lemma_model_after_steps_shift(m, (k - 1) as nat);
        assert(model_after_steps(m, k) == model_after_steps(m1, (k - 1) as nat));
        assert(step_result_at(m1, (k - 1) as nat) == Ok::<Poll<O>, UsageError>(
            Poll::Ready(m1.outcome),
        ));
        lemma_model_after_steps_shift(m, k);
        assert(model_after_steps(m, k + 1) == model_after_steps(m1, k));
        assert(model_after_steps(m1, ((k - 1) as nat) + 1).done);
    }
}

} // verus!

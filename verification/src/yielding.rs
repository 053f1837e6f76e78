//! The cooperative yield primitive: a leaf computation that suspends exactly
//! once, then completes.

use vstd::prelude::*;

use crate::computation::{Computation, Poll, UsageError};
use crate::driver::{step_model, DriverModel};
use crate::signal::{raised_after_request, Signal};

verus! {

/// A single-suspension-point leaf computation. On its first resumption it
/// marks itself about to complete, requests another resume, and reports
/// "still running"; on the second it reports completion with no value.
pub struct YieldNow {
    armed: bool,
    finished: bool,
}

impl Computation for YieldNow {
    type Output = ();

    closed spec fn wf(&self) -> bool {
        self.finished ==> self.armed
    }

    closed spec fn completed(&self) -> bool {
        self.finished
    }

    closed spec fn remaining(&self) -> nat {
        if self.armed {
            0
        } else {
            1
        }
    }

    closed spec fn outcome(&self) -> () {
        ()
    }

    fn resume(&mut self, signal: &mut Signal) -> (r: Poll<()>)
        ensures
            old(self).remaining() != 0 ==> final(signal).raised() == raised_after_request(
                old(signal).configured(),
                old(signal).raised(),
            ),
    {
        if !self.armed {
            self.armed = true;
            // Request to be resumed promptly: not needed by this crate's own
            // driver, which is polled in a tight loop anyway, but it keeps
            // the hint channel honest about there being more to do.
            signal.request_resume_by_ref();
            Poll::Pending
        } else {
            self.finished = true;
            Poll::Ready(())
        }
    }
}

/// Cooperatively give up a timeslice: a fresh yield computation, one
/// suspension away from completing.
pub fn yield_now() -> (y: YieldNow)
    ensures
        y.wf(),
        !y.completed(),
        y.remaining() == 1,
        y.outcome() == (),
{
    YieldNow { armed: false, finished: false }
}

/// Law: a driver holding a fresh yield computation reports "still running"
/// on the first step and completion on the second, in that exact order, and
/// a third step is the completed-driver usage error.
pub proof fn lemma_yield_steps(m: DriverModel<()>)
    requires
        !m.done,
        m.remaining == 1,
    ensures
        step_model(m).1 == Ok::<Poll<()>, UsageError>(Poll::Pending),
        step_model(step_model(m).0).1 == Ok::<Poll<()>, UsageError>(Poll::Ready(())),
        step_model(step_model(step_model(m).0).0).1 == Err::<Poll<()>, UsageError>(
            UsageError::AlreadyCompleted,
        ),
{
}

} // verus!

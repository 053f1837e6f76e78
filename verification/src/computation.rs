//! The suspension protocol: what it means to be a resumable computation.

use vstd::prelude::*;

use crate::signal::Signal;

verus! {

/// The two outcomes of resuming a computation: it either suspends again, or
/// resolves to its final value.
#[derive(Clone, Copy, Debug, PartialEq, Eq)]
pub enum Poll<O> {
    /// The computation suspended at a leaf delay or yield point; resume it
    /// again to make progress.
    Pending,
    /// The computation produced its final value and must never be resumed
    /// again.
    Ready(O),
}

/// Programmer defects surfaced as explicit errors rather than by silently
/// resuming torn-down state.
#[derive(Clone, Copy, Debug, PartialEq, Eq)]
pub enum UsageError {
    /// The driver was stepped again after it had already reported completion.
    AlreadyCompleted,
    /// A computation attempted to duplicate its completion signal, which the
    /// single-holder protocol disallows.
    DuplicateSignal,
}

/// A unit of sequential logic that can suspend and resume repeatedly before
/// producing a final value.
///
/// An implementer carries its own state across suspension points; the driver
/// never inspects it. The abstract interface consists of four spec
/// functions — a well-formedness invariant, a completion marker, the number
/// of suspensions left, and the value the computation resolves to — and one
/// executable operation, [`Computation::resume`], which advances the
/// computation by exactly one step.
pub trait Computation {
    type Output;

    /// The implementer's internal invariant: established by its constructor
    /// and preserved by every resume.
    spec fn wf(&self) -> bool;

    /// Whether the computation has already produced its final value. Once
    /// true, it must never be resumed again.
    spec fn completed(&self) -> bool;

    /// How many times the computation will still suspend before it
    /// completes: the resume after `remaining()` pending ones is the one
    /// that produces the value.
    spec fn remaining(&self) -> nat;

    /// The final value this computation resolves to.
    spec fn outcome(&self) -> Self::Output;

    /// Resume the computation exactly once, supplying the completion-signal
    /// stub as its context. It either suspends — with `remaining` counted
    /// down by one and the outcome unchanged — or resolves to its outcome.
    /// The signal's configuration is left alone, and a raised hint is never
    /// lowered by the computation.
    fn resume(&mut self, signal: &mut Signal) -> (r: Poll<Self::Output>)
        requires
            old(self).wf(),
            !old(self).completed(),
        ensures
            final(self).wf(),
            final(signal).configured() == old(signal).configured(),
            old(signal).raised() ==> final(signal).raised(),
            old(self).remaining() == 0 ==> (r == Poll::Ready(old(self).outcome())
                && final(self).completed()
                && final(self).remaining() == 0
                && final(self).outcome() == old(self).outcome()),
            old(self).remaining() != 0 ==> (r == Poll::<Self::Output>::Pending
                && !final(self).completed()
                && final(self).remaining() == old(self).remaining() - 1
                && final(self).outcome() == old(self).outcome()),
    ;
}

} // verus!

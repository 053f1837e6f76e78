//! The completion-signal stub and the wake-hint channel.
//!
//! A suspended computation holds a [`Signal`] in place of a real scheduler
//! wake-up. The stub is inert: requesting a resume never re-queues anything;
//! at most it raises a shared boolean — the wake hint — that the driver's
//! caller may read to avoid busy-spinning.

use vstd::prelude::*;

use crate::computation::UsageError;

verus! {

/// The wake-hint flag: a hand-off, not a queue. Repeated raises before a
/// read collapse into one; reading clears it. Writers only ever set it to
/// true; clearing is solely the reader's responsibility.
pub struct HintFlag {
    raised: bool,
}

impl HintFlag {
    /// Whether the flag has been raised since it was last cleared.
    pub closed spec fn is_raised(&self) -> bool {
        self.raised
    }

    /// A fresh, lowered flag.
    pub fn new() -> (f: HintFlag)
        ensures
            !f.is_raised(),
    {
        HintFlag { raised: false }
    }

    /// Raise the flag. The only transition a writer may cause is false to true.
    pub fn raise(&mut self)
        ensures
            final(self).is_raised(),
    {
        self.raised = true;
    }

    /// Read and clear in one step: returns whether the flag had been raised
    /// since the previous read, and lowers it.
    pub fn take(&mut self) -> (r: bool)
        ensures
            r == old(self).is_raised(),
            !final(self).is_raised(),
    {
        let r = self.raised;
        self.raised = false;
        r
    }
}

/// The flag state a resume-request leaves behind: raised if a flag is
/// configured, otherwise whatever it was (there is nothing to raise).
pub open spec fn raised_after_request(configured: bool, raised: bool) -> bool {
    raised || configured
}

/// The flag state after `n` consecutive resume-requests with no read in
/// between.
pub open spec fn raised_after_requests(configured: bool, raised: bool, n: nat) -> bool
    decreases n,
{
    if n == 0 {
        raised
    } else {
        raised_after_request(configured, raised_after_requests(configured, raised, (n - 1) as nat))
    }
}

/// Whether an optional flag is currently raised.
pub open spec fn flag_raised(flag: Option<HintFlag>) -> bool {
    match flag {
        Some(f) => f.is_raised(),
        None => false,
    }
}

/// The completion-signal stub: a value-less, callback-bearing token handed to
/// a suspended computation, optionally carrying the shared wake-hint flag.
/// It never owns the computation, and it stays safe to invoke no matter how
/// often the computation uses it.
pub struct Signal {
    flag: Option<HintFlag>,
}

impl Signal {
    /// Whether a wake-hint flag was configured for this signal.
    pub closed spec fn configured(&self) -> bool {
        self.flag is Some
    }

    /// Whether the configured flag is currently raised. Always false when no
    /// flag was configured.
    pub closed spec fn raised(&self) -> bool {
        flag_raised(self.flag)
    }

    /// A signal, optionally connected to a wake-hint flag. Absence of a flag
    /// is a valid degraded mode: the caller then has no idle hint and must
    /// poll continuously.
    pub fn new(flag: Option<HintFlag>) -> (s: Signal)
        ensures
            s.configured() == (flag is Some),
            s.raised() == flag_raised(flag),
    {
        Signal { flag }
    }

    /// Duplicating the signal is disallowed: the driver never fans a signal
    /// out to multiple holders, so an attempt is a usage error, surfaced
    /// explicitly rather than handing back a second token.
    pub fn duplicate(&self) -> (r: Result<Signal, UsageError>)
        ensures
            r == Err::<Signal, UsageError>(UsageError::DuplicateSignal),
    {
        Err(UsageError::DuplicateSignal)
    }

    /// Request to be resumed, consuming the requester's interest in the
    /// signal. The one true side effect of the stub: the hint flag, if
    /// configured, is raised.
    pub fn request_resume(&mut self)
        ensures
            final(self).configured() == old(self).configured(),
            final(self).raised() == raised_after_request(old(self).configured(), old(self).raised()),
    {
        match &mut self.flag {
            Some(f) => f.raise(),
            None => {},
        }
    }

    /// Request to be resumed without consuming the requester's interest.
    /// Same effect as [`Signal::request_resume`]: the hint flag, if
    /// configured, is raised.
    pub fn request_resume_by_ref(&mut self)
        ensures
            final(self).configured() == old(self).configured(),
            final(self).raised() == raised_after_request(old(self).configured(), old(self).raised()),
    {
        match &mut self.flag {
            Some(f) => f.raise(),
            None => {},
        }
    }

    /// Discard the signal: a no-op. It never raises the hint flag and never
    /// errors.
    pub fn discard(&mut self)
        ensures
            *final(self) == *old(self),
    {
    }

    /// Read and clear the wake hint: returns whether a resume-request raised
    /// it since the previous read. Unconditionally false when no flag was
    /// configured.
    pub fn take_hint(&mut self) -> (r: bool)
        ensures
            r == old(self).raised(),
            !final(self).raised(),
            final(self).configured() == old(self).configured(),
    {
        match &mut self.flag {
            Some(f) => f.take(),
            None => false,
        }
    }
}

/// Law: the wake hint observes a burst of resume-requests exactly once. Any
/// positive number of requests on a signal with a configured flag leaves the
/// flag raised, so the next read returns true; the read clears the flag, so
/// a further read with no request in between returns false.
pub proof fn lemma_wake_hint_once_per_raise(configured: bool, raised: bool, n: nat)
    requires
        configured,
        n >= 1,
    ensures
        raised_after_requests(configured, raised, n),
        !raised_after_requests(configured, false, 0),
    decreases n,
{
    if n > 1 {
        lemma_wake_hint_once_per_raise(configured, raised, (n - 1) as nat);
    }
}

} // verus!

//! A verified, single-computation, non-blocking stepper for building state
//! machines out of suspendable computations.
//!
//! The driver ([`Cassette`]) owns one [`Computation`] and resumes it on
//! demand, one step at a time, until it resolves to its final value. No
//! threads, timers or multi-task scheduling are involved: the caller polls in
//! a loop, optionally consulting an out-of-band wake hint to decide whether
//! another poll is likely to make progress.
//!
//! A suspended computation is handed a [`Signal`]: an inert stand-in for a
//! scheduler wake-up whose only real side effect is raising the optional
//! hint flag. The driver itself never acts on resume requests; it is polled,
//! not woken.

mod computation;
mod demo;
mod driver;
mod signal;
mod yielding;

pub use computation::{Computation, Poll, UsageError};
pub use demo::{
    lemma_seq_resumes_at_least_len, lemma_zero_to_zero_pass, leaf_final, leaf_ok, leaf_resumes,
    phases_leaves, run_remaining, seq_final, seq_ok, seq_resumes, zero_to_ten_leaves,
    zero_to_zero_leaves, Demo, DemoRun, LeafStep,
};
pub use driver::{
    block_on, lemma_block_on_matches_steps, model_after_steps, step_model, step_result_at,
    Cassette, DriverModel,
};
pub use signal::{
    flag_raised, lemma_wake_hint_once_per_raise, raised_after_request, raised_after_requests,
    HintFlag, Signal,
};
pub use yielding::{lemma_yield_steps, yield_now, YieldNow};

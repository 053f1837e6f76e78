//! The hierarchical composition pattern, exercised end to end.
//!
//! A top-level computation is built as an ordered composition of named leaf
//! steps, grouped into phases: each resume performs exactly one leaf call,
//! the leaf reports whether its completion predicate over the owned state
//! holds, and the run advances depth-first, left to right, through the
//! phases. All state lives in [`Demo`], which the driver never inspects.

use vstd::prelude::*;

use crate::computation::{Computation, Poll};
use crate::signal::Signal;

verus! {

/// The demonstration state: one integer, mutated in place across suspension
/// points and owned exclusively by the running composition.
#[derive(Clone, Copy, Debug, PartialEq, Eq, Structural)]
pub struct Demo {
    pub lol: u32,
}

/// The named leaf steps a composition is built from. Each resume of a run
/// performs one leaf call on the owned state.
#[derive(Clone, Copy, Debug, PartialEq, Eq, Structural)]
pub enum LeafStep {
    /// Set the state to zero; done immediately.
    StartAtZero,
    /// Set the state to five; done immediately.
    StartAtFive,
    /// Add one; done once the state has reached ten.
    AddOneUntilTen,
    /// Subtract one; done once the state has reached zero.
    SubOneUntilZero,
}

impl Demo {
    /// Set the state to zero. The step is done at once.
    pub fn start_at_zero(&mut self) -> (r: Result<bool, ()>)
        ensures
            final(self).lol == 0,
            r == Ok::<bool, ()>(true),
    {
        self.lol = 0;
        Ok(true)
    }

    /// Set the state to five. The step is done at once.
    pub fn start_at_five(&mut self) -> (r: Result<bool, ()>)
        ensures
            final(self).lol == 5,
            r == Ok::<bool, ()>(true),
    {
        self.lol = 5;
        Ok(true)
    }

    /// Add one to the state; the step is done once the state has reached
    /// ten.
    pub fn add_one_until_ten(&mut self) -> (r: Result<bool, ()>)
        requires
            old(self).lol < u32::MAX,
        ensures
            final(self).lol == old(self).lol + 1,
            r == Ok::<bool, ()>(final(self).lol >= 10),
    {
        self.lol = self.lol + 1;
        Ok(self.lol >= 10)
    }

    /// Subtract one from the state; the step is done once the state has
    /// reached zero.
    pub fn sub_one_until_zero(&mut self) -> (r: Result<bool, ()>)
        requires
            old(self).lol >= 1,
        ensures
            final(self).lol == old(self).lol - 1,
            r == Ok::<bool, ()>(final(self).lol == 0),
    {
        self.lol = self.lol - 1;
        Ok(self.lol == 0)
    }

    /// One phase that zeroes the state and climbs to ten.
    pub fn zero_to_ten(&self) -> (s: Vec<Vec<LeafStep>>)
        ensures
            s@.len() == 1,
            s@[0]@ == zero_to_ten_leaves(),
    {
        let mut inner: Vec<LeafStep> = Vec::new();
        inner.push(LeafStep::StartAtZero);
        inner.push(LeafStep::AddOneUntilTen);
        proof {
            assert(inner@ =~= zero_to_ten_leaves());
        }
        let mut s: Vec<Vec<LeafStep>> = Vec::new();
        s.push(inner);
        s
    }

    /// One phase that zeroes the state, climbs to ten, and walks back to
    /// zero.
    pub fn zero_to_zero(&self) -> (s: Vec<Vec<LeafStep>>)
        ensures
            s@.len() == 1,
            s@[0]@ == zero_to_zero_leaves(),
    {
        let mut inner: Vec<LeafStep> = Vec::new();
        inner.push(LeafStep::StartAtZero);
        inner.push(LeafStep::AddOneUntilTen);
        inner.push(LeafStep::SubOneUntilZero);
        proof {
            assert(inner@ =~= zero_to_zero_leaves());
        }
        let mut s: Vec<Vec<LeafStep>> = Vec::new();
        s.push(inner);
        s
    }

    /// Three phases in sequence: up, up and back down, and up again.
    pub fn fancy(&self) -> (s: Vec<Vec<LeafStep>>)
        ensures
            s@.len() == 3,
            s@[0]@ == zero_to_ten_leaves(),
            s@[1]@ == zero_to_zero_leaves(),
            s@[2]@ == zero_to_ten_leaves(),
    {
        let mut first: Vec<LeafStep> = Vec::new();
        first.push(LeafStep::StartAtZero);
        first.push(LeafStep::AddOneUntilTen);
        proof {
            assert(first@ =~= zero_to_ten_leaves());
        }
        let mut second: Vec<LeafStep> = Vec::new();
        second.push(LeafStep::StartAtZero);
        second.push(LeafStep::AddOneUntilTen);
        second.push(LeafStep::SubOneUntilZero);
        proof {
            assert(second@ =~= zero_to_zero_leaves());
        }
        let mut third: Vec<LeafStep> = Vec::new();
        third.push(LeafStep::StartAtZero);
        third.push(LeafStep::AddOneUntilTen);
        proof {
            assert(third@ =~= zero_to_ten_leaves());
        }
        let mut s: Vec<Vec<LeafStep>> = Vec::new();
        s.push(first);
        s.push(second);
        s.push(third);
        s
    }
}

/// The leaf order of the zero-to-ten phase.
pub open spec fn zero_to_ten_leaves() -> Seq<LeafStep> {
    seq![LeafStep::StartAtZero, LeafStep::AddOneUntilTen]
}

/// The leaf order of the zero-to-ten-to-zero phase.
pub open spec fn zero_to_zero_leaves() -> Seq<LeafStep> {
    seq![LeafStep::StartAtZero, LeafStep::AddOneUntilTen, LeafStep::SubOneUntilZero]
}

/// Whether one call of the leaf is possible from the given state: the two
/// counting leaves have machine limits (no wrap past the integer bounds).
pub open spec fn leaf_ok(leaf: LeafStep, lol: u32) -> bool {
    match leaf {
        LeafStep::StartAtZero => true,
        LeafStep::StartAtFive => true,
        LeafStep::AddOneUntilTen => lol < u32::MAX,
        LeafStep::SubOneUntilZero => lol >= 1,
    }
}

/// The state the leaf leaves behind once its completion predicate holds.
pub open spec fn leaf_final(leaf: LeafStep, lol: u32) -> u32 {
    match leaf {
        LeafStep::StartAtZero => 0,
        LeafStep::StartAtFive => 5,
        LeafStep::AddOneUntilTen => if lol >= 9 {
            (lol + 1) as u32
        } else {
            10
        },
        LeafStep::SubOneUntilZero => 0,
    }
}

/// How many resumes the leaf takes to report done from the given state.
/// Every leaf takes at least one.
pub open spec fn leaf_resumes(leaf: LeafStep, lol: u32) -> nat {
    match leaf {
        LeafStep::StartAtZero => 1,
        LeafStep::StartAtFive => 1,
        LeafStep::AddOneUntilTen => if lol >= 9 {
            1
        } else {
            (10 - lol) as nat
        },
        LeafStep::SubOneUntilZero => if lol == 0 {
            1
        } else {
            lol as nat
        },
    }
}

/// Whether a whole leaf sequence can run from the given state without
/// hitting a machine limit, threading each leaf's final state into the next.
pub open spec fn seq_ok(leaves: Seq<LeafStep>, lol: u32) -> bool
    decreases leaves.len(),
{
    leaves.len() == 0 || (leaf_ok(leaves[0], lol) && seq_ok(
        leaves.skip(1),
        leaf_final(leaves[0], lol),
    ))
}

/// The total number of resumes a leaf sequence takes from the given state.
pub open spec fn seq_resumes(leaves: Seq<LeafStep>, lol: u32) -> nat
    decreases leaves.len(),
{
    if leaves.len() == 0 {
        0
    } else {
        leaf_resumes(leaves[0], lol) + seq_resumes(leaves.skip(1), leaf_final(leaves[0], lol))
    }
}

/// The state a leaf sequence leaves behind, from the given state.
pub open spec fn seq_final(leaves: Seq<LeafStep>, lol: u32) -> u32
    decreases leaves.len(),
{
    if leaves.len() == 0 {
        lol
    } else {
        seq_final(leaves.skip(1), leaf_final(leaves[0], lol))
    }
}

/// How many "still running" steps a fresh run over these leaves reports
/// before the step that resolves it.
pub open spec fn run_remaining(leaves: Seq<LeafStep>, lol: u32) -> nat {
    if leaves.len() == 0 {
        0
    } else {
        (seq_resumes(leaves, lol) - 1) as nat
    }
}

/// The depth-first, left-to-right leaf order of a phase list.
pub open spec fn phases_leaves(phases: Seq<Vec<LeafStep>>) -> Seq<LeafStep>
    decreases phases.len(),
{
    if phases.len() == 0 {
        Seq::empty()
    } else {
        phases[0]@ + phases_leaves(phases.skip(1))
    }
}

/// A sequence of leaves never takes fewer resumes than it has leaves.
pub proof fn lemma_seq_resumes_at_least_len(leaves: Seq<LeafStep>, lol: u32)
    ensures
        seq_resumes(leaves, lol) >= leaves.len(),
    decreases leaves.len(),
{
    if leaves.len() > 0 {
        lemma_seq_resumes_at_least_len(leaves.skip(1), leaf_final(leaves[0], lol));
        assert(leaf_resumes(leaves[0], lol) >= 1);
    }
}

/// Appending one phase appends its leaves at the end of the flattened
/// order.
proof fn lemma_phases_leaves_push(phases: Seq<Vec<LeafStep>>, last: Vec<LeafStep>)
    ensures
        phases_leaves(phases.push(last)) == phases_leaves(phases) + last@,
    decreases phases.len(),
{
    if phases.len() == 0 {
        assert(phases.push(last)[0] == last);
        assert(phases.push(last).skip(1) =~= Seq::<Vec<LeafStep>>::empty());
        assert(phases_leaves(phases.push(last)) =~= phases_leaves(phases) + last@);
    } else {
        lemma_phases_leaves_push(phases.skip(1), last);
        assert(phases.push(last)[0] == phases[0]);
        assert(phases.push(last).skip(1) =~= phases.skip(1).push(last));
        assert(phases_leaves(phases.push(last)) == phases.push(last)[0]@ + phases_leaves(
            phases.push(last).skip(1),
        ));
        assert(phases_leaves(phases) == phases[0]@ + phases_leaves(phases.skip(1)));
        assert(phases_leaves(phases.push(last)) =~= phases_leaves(phases) + last@);
    }
}

/// Law: one zero-to-ten-to-zero pass started from state 100 is runnable,
/// resolves to final state 0, and reports "still running" exactly 20 times
/// first — one initialisation resume, then ten increment suspensions up to
/// ten, then ten decrement suspensions back to zero, the last of which
/// resolves the run. So the driver reports completion only after all nested
/// phases finish, and a full pass takes at least one step per suspension.
pub proof fn lemma_zero_to_zero_pass()
    ensures
        seq_ok(zero_to_zero_leaves(), 100),
        run_remaining(zero_to_zero_leaves(), 100) == 20,
        seq_final(zero_to_zero_leaves(), 100) == 0,
{
    let s = zero_to_zero_leaves();
    let s1 = seq![LeafStep::AddOneUntilTen, LeafStep::SubOneUntilZero];
    let s2 = seq![LeafStep::SubOneUntilZero];
    let s3 = Seq::<LeafStep>::empty();
    assert(s.skip(1) =~= s1);
    assert(s1.skip(1) =~= s2);
    assert(s2.skip(1) =~= s3);
    assert(seq_resumes(s3, 0) == 0);
    assert(seq_final(s3, 0) == 0);
    assert(seq_ok(s3, 0));
    assert(leaf_resumes(LeafStep::SubOneUntilZero, 10) == 10);
    assert(seq_resumes(s2, 10) == 10);
    assert(seq_final(s2, 10) == 0);
    assert(seq_ok(s2, 10));
    assert(leaf_resumes(LeafStep::AddOneUntilTen, 0) == 10);
    assert(leaf_final(LeafStep::AddOneUntilTen, 0) == 10);
    assert(seq_resumes(s1, 0) == 20);
    assert(seq_final(s1, 0) == 0);
    assert(seq_ok(s1, 0));
    assert(seq_resumes(s, 100) == 21);
    assert(seq_final(s, 100) == 0);
    assert(seq_ok(s, 100));
}

/// A run of a hierarchical composition: the owned [`Demo`] state together
/// with the flattened, depth-first leaf order and the position reached so
/// far. Each resume performs exactly one leaf call.
pub struct DemoRun {
    demo: Demo,
    leaves: Vec<LeafStep>,
    pos: usize,
    finished: bool,
}

/// Flatten a phase list into its depth-first, left-to-right leaf order.
fn flatten_phases(phases: &Vec<Vec<LeafStep>>) -> (v: Vec<LeafStep>)
    ensures
        v@ == phases_leaves(phases@),
{
    let mut v: Vec<LeafStep> = Vec::new();
    proof {
        assert(phases@.take(0) =~= Seq::<Vec<LeafStep>>::empty());
        assert(v@ =~= phases_leaves(phases@.take(0)));
    }
    let mut i: usize = 0;
    while i < phases.len()
        invariant
            i <= phases@.len(),
            v@ == phases_leaves(phases@.take(i as int)),
        decreases phases@.len() - i,
    {
        let phase = &phases[i];
        proof {
            assert(v@ + phase@.take(0) =~= v@);
        }
        let ghost v0 = v@;
        let mut j: usize = 0;
        while j < phase.len()
            invariant
                j <= phase@.len(),
                v@ == v0 + phase@.take(j as int),
            decreases phase@.len() - j,
        {
            v.push(phase[j]);
            j = j + 1;
            proof {
                assert(phase@.take(j as int) =~= phase@.take(j - 1).push(phase@[j - 1]));
                assert(v@ =~= v0 + phase@.take(j as int));
            }
        }
        proof {
            assert(phase@.take(phase@.len() as int) =~= phase@);
            lemma_phases_leaves_push(phases@.take(i as int), phases@[i as int]);
            assert(phases@.take(i as int).push(phases@[i as int]) =~= phases@.take(i + 1));
        }
        i = i + 1;
    }
    proof {
        assert(phases@.take(phases@.len() as int) =~= phases@);
    }
    v
}

/// Check at run time that a flattened composition can run from the given
/// state without hitting a machine limit.
fn leaves_runnable(leaves: &Vec<LeafStep>, lol: u32) -> (r: bool)
    ensures
        r == seq_ok(leaves@, lol),
{
    let mut cur: u32 = lol;
    let mut i: usize = 0;
    proof {
        assert(leaves@.skip(0) =~= leaves@);
    }
    while i < leaves.len()
        invariant
            i <= leaves@.len(),
            seq_ok(leaves@, lol) == seq_ok(leaves@.skip(i as int), cur),
        decreases leaves@.len() - i,
    {
        let leaf = leaves[i];
        let ok_here: bool = match leaf {
            LeafStep::StartAtZero => true,
            LeafStep::StartAtFive => true,
            LeafStep::AddOneUntilTen => cur < u32::MAX,
            LeafStep::SubOneUntilZero => cur >= 1,
        };
        proof {
            assert(leaves@.skip(i as int)[0] == leaves@[i as int]);
        }
        if !ok_here {
            proof {
                assert(!leaf_ok(leaf, cur));
                assert(!seq_ok(leaves@.skip(i as int), cur));
            }
            return false;
        }
        let next: u32 = match leaf {
            LeafStep::StartAtZero => 0,
            LeafStep::StartAtFive => 5,
            LeafStep::AddOneUntilTen => if cur >= 9 {
                cur + 1
            } else {
                10
            },
            LeafStep::SubOneUntilZero => 0,
        };
        proof {
            assert(next == leaf_final(leaf, cur));
            assert(leaves@.skip(i as int).skip(1) =~= leaves@.skip(i as int + 1));
            assert(seq_ok(leaves@.skip(i as int), cur) == seq_ok(leaves@.skip(i as int + 1), next));
        }
        cur = next;
        i = i + 1;
    }
    proof {
        assert(leaves@.skip(leaves@.len() as int) =~= Seq::<LeafStep>::empty());
    }
    true
}

impl DemoRun {
    /// The demonstration state as it stands right now.
    pub closed spec fn state(&self) -> u32 {
        self.demo.lol
    }

    /// Read the demonstration state as it stands right now.
    pub fn current_state(&self) -> (r: u32)
        ensures
            r == self.state(),
    {
        self.demo.lol
    }

    /// A run over the given phases, from the given starting state. The
    /// composition must be runnable from that state.
    pub fn new(demo: Demo, phases: Vec<Vec<LeafStep>>) -> (r: DemoRun)
        requires
            seq_ok(phases_leaves(phases@), demo.lol),
        ensures
            r.wf(),
            !r.completed(),
            r.state() == demo.lol,
            r.remaining() == run_remaining(phases_leaves(phases@), demo.lol),
            r.outcome() == Ok::<u32, ()>(seq_final(phases_leaves(phases@), demo.lol)),
    {
        let leaves = flatten_phases(&phases);
        proof {
            assert(leaves@.skip(0) =~= leaves@);
        }
        DemoRun { demo, leaves, pos: 0, finished: false }
    }

    /// A run over the given phases, from the given starting state, with the
    /// runnability check made at run time: `None` exactly when the
    /// composition cannot run from that state.
    pub fn try_new(demo: Demo, phases: Vec<Vec<LeafStep>>) -> (r: Option<DemoRun>)
        ensures
            (r is Some) == seq_ok(phases_leaves(phases@), demo.lol),
            r matches Some(run) ==> run.wf() && !run.completed() && run.state() == demo.lol
                && run.remaining() == run_remaining(phases_leaves(phases@), demo.lol)
                && run.outcome() == Ok::<u32, ()>(seq_final(phases_leaves(phases@), demo.lol)),
    {
        let leaves = flatten_phases(&phases);
        if leaves_runnable(&leaves, demo.lol) {
            proof {
                assert(leaves@.skip(0) =~= leaves@);
            }
            Some(DemoRun { demo, leaves, pos: 0, finished: false })
        } else {
            None
        }
    }
}

impl Computation for DemoRun {
    type Output = Result<u32, ()>;

    closed spec fn wf(&self) -> bool {
        &&& self.pos <= self.leaves@.len()
        &&& seq_ok(self.leaves@.skip(self.pos as int), self.demo.lol)
        &&& (self.finished ==> self.pos == self.leaves@.len())
    }

    closed spec fn completed(&self) -> bool {
        self.finished
    }

    closed spec fn remaining(&self) -> nat {
        if self.pos >= self.leaves@.len() {
            0
        } else {
            (seq_resumes(self.leaves@.skip(self.pos as int), self.demo.lol) - 1) as nat
        }
    }

    closed spec fn outcome(&self) -> Result<u32, ()> {
        Ok(seq_final(self.leaves@.skip(self.pos as int), self.demo.lol))
    }

    fn resume(&mut self, _signal: &mut Signal) -> (r: Poll<Result<u32, ()>>) {
        let ghost l0 = self.leaves@;
        let ghost p0 = self.pos as int;
        let ghost lol0 = self.demo.lol;
        if self.pos >= self.leaves.len() {
            proof {
                assert(l0.skip(p0) =~= Seq::<LeafStep>::empty());
                assert(seq_final(l0.skip(p0), lol0) == lol0);
            }
            self.finished = true;
            return Poll::Ready(Ok(self.demo.lol));
        }
        let ghost rest0 = l0.skip(p0);
        proof {
            assert(rest0[0] == l0[p0]);
            assert(rest0.skip(1) =~= l0.skip(p0 + 1));
            assert(leaf_ok(rest0[0], lol0));
        }
        let leaf = self.leaves[self.pos];
        let step_result = match leaf {
            LeafStep::StartAtZero => self.demo.start_at_zero(),
            LeafStep::StartAtFive => self.demo.start_at_five(),
            LeafStep::AddOneUntilTen => self.demo.add_one_until_ten(),
            LeafStep::SubOneUntilZero => self.demo.sub_one_until_zero(),
        };
        let ghost lol1 = self.demo.lol;
        proof {
            lemma_seq_resumes_at_least_len(rest0.skip(1), leaf_final(leaf, lol0));
            if step_result == Ok::<bool, ()>(true) {
                assert(leaf_resumes(leaf, lol0) == 1);
                assert(leaf_final(leaf, lol0) == lol1);
            } else {
                assert(leaf_resumes(leaf, lol0) == 1 + leaf_resumes(leaf, lol1));
                assert(leaf_final(leaf, lol0) == leaf_final(leaf, lol1));
                assert(leaf_ok(leaf, lol1));
            }
        }
        match step_result {
            Ok(true) => {
                self.pos = self.pos + 1;
                if self.pos == self.leaves.len() {
                    proof {
                        assert(l0.skip(p0 + 1) =~= Seq::<LeafStep>::empty());
                        assert(seq_resumes(rest0, lol0) == 1);
                        assert(seq_final(rest0, lol0) == seq_final(
                            rest0.skip(1),
                            leaf_final(leaf, lol0),
                        ));
                        assert(seq_final(Seq::<LeafStep>::empty(), lol1) == lol1);
                        assert(seq_final(rest0, lol0) == lol1);
                    }
                    self.finished = true;
                    Poll::Ready(Ok(self.demo.lol))
                } else {
                    proof {
                        assert(seq_resumes(rest0, lol0) == 1 + seq_resumes(
                            l0.skip(p0 + 1),
                            lol1,
                        ));
                        assert(seq_final(rest0, lol0) == seq_final(l0.skip(p0 + 1), lol1));
                        assert(seq_resumes(l0.skip(p0 + 1), lol1) >= l0.skip(p0 + 1).len());
                    }
                    Poll::Pending
                }
            },
            Ok(false) => {
                proof {
                    assert(seq_ok(rest0.skip(1), leaf_final(leaf, lol1)));
                    assert(seq_ok(rest0, lol1));
                    assert(seq_resumes(rest0, lol0) == leaf_resumes(leaf, lol0) + seq_resumes(
                        rest0.skip(1),
                        leaf_final(leaf, lol0),
                    ));
                    assert(seq_resumes(rest0, lol1) == leaf_resumes(leaf, lol1) + seq_resumes(
                        rest0.skip(1),
                        leaf_final(leaf, lol1),
                    ));
                    assert(seq_final(rest0, lol1) == seq_final(rest0, lol0));
                }
                Poll::Pending
            },
            Err(_) => {
                proof {
                    assert(false);
                }
                Poll::Ready(Err(()))
            },
        }
    }
}

} // verus!

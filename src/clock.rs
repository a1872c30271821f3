//! Fixed-timestep clock: decouples the physics rate from the render rate with an
//! elapsed-time accumulator. Times are whole nanoseconds.
use vstd::prelude::*;
use vstd::arithmetic::div_mod::{lemma_fundamental_div_mod, lemma_fundamental_div_mod_converse};

verus! {

/// Length of one physics step in nanoseconds: 0.02 s, a 50 Hz cadence.
pub const PHYSICS_STEP_NS: u64 = 20_000_000;

/// Most physics steps that a single render tick may trigger.
pub const MAX_CATCH_UP_STEPS: u64 = 5;

/// The whole-step part of `acc + dt` stays within the cap `max`.
pub open spec fn within_cap(acc: nat, step: nat, max: nat, dt: nat) -> bool {
    (acc + dt) / step <= max
}

/// One render tick of length `dt` on a clock holding `acc` of accumulated time:
/// the number of physics steps it runs and the time left in the accumulator.
/// Whole steps beyond the cap `max` are dropped; the part of a step is kept.
pub open spec fn tick_outcome(acc: nat, step: nat, max: nat, dt: nat) -> (nat, nat)
    recommends
        step > 0,
{
    if within_cap(acc, step, max, dt) {
        ((acc + dt) / step, (acc + dt) % step)
    } else {
        (max, (acc + dt) % step)
    }
}

/// Sum of a sequence of render deltas.
pub open spec fn total_time(deltas: Seq<nat>) -> nat
    decreases deltas.len(),
{
    if deltas.len() == 0 {
        0
    } else {
        total_time(deltas.drop_last()) + deltas.last()
    }
}

/// Steps run in all, and the time left over, after the ticks `deltas` in order,
/// starting from accumulated time `acc`.
pub open spec fn run_ticks(acc: nat, step: nat, max: nat, deltas: Seq<nat>) -> (nat, nat)
    decreases deltas.len(),
{
    if deltas.len() == 0 {
        (0, acc)
    } else {
        let before = run_ticks(acc, step, max, deltas.drop_last());
        let now = tick_outcome(before.1, step, max, deltas.last());
        (before.0 + now.0, now.1)
    }
}

/// No tick of `deltas`, run from `acc`, reaches past the catch-up cap.
pub open spec fn never_capped(acc: nat, step: nat, max: nat, deltas: Seq<nat>) -> bool
    decreases deltas.len(),
{
    if deltas.len() == 0 {
        true
    } else {
        &&& never_capped(acc, step, max, deltas.drop_last())
        &&& within_cap(run_ticks(acc, step, max, deltas.drop_last()).1, step, max, deltas.last())
    }
}

/// While no tick is capped, time is conserved: the steps run, times the step
/// length, plus what is left in the accumulator, is the starting accumulator
/// plus all the time that passed.
pub proof fn lemma_run_ticks_conserves_time(acc: nat, step: nat, max: nat, deltas: Seq<nat>)
    requires
        step > 0,
        acc < step,
        never_capped(acc, step, max, deltas),
    ensures
        run_ticks(acc, step, max, deltas).0 * step + run_ticks(acc, step, max, deltas).1
            == acc + total_time(deltas),
        run_ticks(acc, step, max, deltas).1 < step,
    decreases deltas.len(),
{
    if deltas.len() > 0 {
        let rest = deltas.drop_last();
        lemma_run_ticks_conserves_time(acc, step, max, rest);
        let before = run_ticks(acc, step, max, rest);
        let total = before.1 + deltas.last();
        lemma_fundamental_div_mod(total as int, step as int);
        let s0 = before.0;
        let s1 = total / step;
        assert(within_cap(before.1, step, max, deltas.last()));
        assert(run_ticks(acc, step, max, deltas) == (s0 + s1, total % step));
        assert(total_time(deltas) == total_time(rest) + deltas.last());
        assert((s0 + s1) * step == s0 * step + step * s1) by (nonlinear_arith);
        assert(total == step * s1 + total % step);
        assert(s0 * step + before.1 == acc + total_time(rest));
        assert((s0 + s1) * step + total % step == acc + total_time(deltas));
    } else {
        assert(0 * step == 0) by (nonlinear_arith);
    }
}

/// The steps run depend only on the total time that passed, not on how it was
/// split into render ticks, as long as no tick reaches the catch-up cap: they
/// are the whole steps in the starting accumulator plus that time.
pub proof fn lemma_steps_follow_total_time(acc: nat, step: nat, max: nat, deltas: Seq<nat>)
    requires
        step > 0,
        acc < step,
        never_capped(acc, step, max, deltas),
    ensures
        run_ticks(acc, step, max, deltas).0 == (acc + total_time(deltas)) / step,
        run_ticks(acc, step, max, deltas).1 == (acc + total_time(deltas)) % step,
{
    lemma_run_ticks_conserves_time(acc, step, max, deltas);
    let r = run_ticks(acc, step, max, deltas);
    lemma_fundamental_div_mod_converse((acc + total_time(deltas)) as int, step as int, r.0 as int, r.1 as int);
}

/// Re-chunking the same elapsed time into other render ticks runs the same
/// number of physics steps and leaves the same time over, as long as neither
/// chunking reaches the catch-up cap.
pub proof fn lemma_rechunking_runs_same_steps(
    acc: nat,
    step: nat,
    max: nat,
    a: Seq<nat>,
    b: Seq<nat>,
)
    requires
        step > 0,
        acc < step,
        never_capped(acc, step, max, a),
        never_capped(acc, step, max, b),
        total_time(a) == total_time(b),
    ensures
        run_ticks(acc, step, max, a) == run_ticks(acc, step, max, b),
{
    lemma_steps_follow_total_time(acc, step, max, a);
    lemma_steps_follow_total_time(acc, step, max, b);
}

/// Render ticks that add up to exactly `k` physics steps, from a drained
/// clock, run exactly `k` steps and leave nothing over, as long as no tick
/// reaches the catch-up cap.
pub proof fn lemma_exact_multiple_runs_k_steps(step: nat, max: nat, deltas: Seq<nat>, k: nat)
    requires
        step > 0,
        never_capped(0, step, max, deltas),
        total_time(deltas) == k * step,
    ensures
        run_ticks(0, step, max, deltas) == (k, 0nat),
{
    lemma_steps_follow_total_time(0, step, max, deltas);
    lemma_fundamental_div_mod_converse((k * step) as int, step as int, k as int, 0);
}

/// Accumulator that turns variable render deltas into a whole number of fixed
/// physics steps.
pub struct SimulationClock {
    accumulator_ns: u64,
    step_ns: u64,
    max_steps: u64,
}

impl SimulationClock {
    /// Time accumulated and not yet spent on a step.
    pub closed spec fn accumulated(&self) -> nat {
        self.accumulator_ns as nat
    }

    /// Length of one physics step.
    pub closed spec fn step_len(&self) -> nat {
        self.step_ns as nat
    }

    /// Most steps one tick may run.
    pub closed spec fn step_cap(&self) -> nat {
        self.max_steps as nat
    }

    pub open spec fn wf(&self) -> bool {
        &&& 0 < self.step_len() <= u64::MAX / 2
        &&& 0 < self.step_cap()
        &&& self.accumulated() < self.step_len()
    }

    /// A drained clock with the given step length and catch-up cap.
    pub fn new(step_ns: u64, max_steps: u64) -> (r: Self)
        requires
            0 < step_ns <= u64::MAX / 2,
            0 < max_steps,
        ensures
            r.wf(),
            r.accumulated() == 0,
            r.step_len() == step_ns,
            r.step_cap() == max_steps,
    {
        SimulationClock { accumulator_ns: 0, step_ns, max_steps }
    }

    /// A drained clock at the physics cadence of 50 Hz.
    pub fn fixed_rate() -> (r: Self)
        ensures
            r.wf(),
            r.accumulated() == 0,
            r.step_len() == PHYSICS_STEP_NS,
            r.step_cap() == MAX_CATCH_UP_STEPS,
    {
        Self::new(PHYSICS_STEP_NS, MAX_CATCH_UP_STEPS)
    }

    pub fn accumulated_ns(&self) -> (r: u64)
        ensures
            r == self.accumulated(),
    {
        self.accumulator_ns
    }

    pub fn step_ns(&self) -> (r: u64)
        ensures
            r == self.step_len(),
    {
        self.step_ns
    }

    pub fn max_steps(&self) -> (r: u64)
        ensures
            r == self.step_cap(),
    {
        self.max_steps
    }

    /// Accounts for a render tick of `dt_ns` and returns how many physics steps
    /// to run now.
    pub fn tick(&mut self, dt_ns: u64) -> (steps: u64)
        requires
            old(self).wf(),
        ensures
            final(self).wf(),
            final(self).step_len() == old(self).step_len(),
            final(self).step_cap() == old(self).step_cap(),
            (steps as nat, final(self).accumulated()) == tick_outcome(
                old(self).accumulated(),
                old(self).step_len(),
                old(self).step_cap(),
                dt_ns as nat,
            ),
    {
        let step = self.step_ns;
        let whole = dt_ns / step;
        let rem = dt_ns % step;
        let partial = self.accumulator_ns + rem;
        let carry = partial / step;
        let left = partial % step;
        proof {
            let total = self.accumulator_ns + dt_ns;
            lemma_fundamental_div_mod(dt_ns as int, step as int);
            lemma_fundamental_div_mod(partial as int, step as int);
            assert(carry <= 1) by {
                if carry >= 2 {
                    assert(step * carry >= step * 2) by (nonlinear_arith)
                        requires carry >= 2;
                }
            }
            assert(total == (whole + carry) * step + left) by (nonlinear_arith)
                requires
                    dt_ns == step * whole + rem,
                    partial == step * carry + left,
                    partial == self.accumulator_ns + rem,
                    total == self.accumulator_ns + dt_ns;
            lemma_fundamental_div_mod_converse(total as int, step as int, (whole + carry) as int, left as int);
        }
        self.accumulator_ns = left;
        if whole >= self.max_steps {
            self.max_steps
        } else if whole + carry > self.max_steps {
            self.max_steps
        } else {
            whole + carry
        }
    }
}

} // verus!

//! The fixed-timestep simulation clock: wall-clock time accumulates, and
//! each whole step interval of accumulation advances the absolute step
//! counter by a fixed stride.

use vstd::arithmetic::div_mod::{lemma_basic_div, lemma_div_by_self, lemma_div_is_ordered,
    lemma_div_minus_one, lemma_mod_sub_multiples_vanish, lemma_small_mod};
use vstd::prelude::*;
use crate::dynamics::DEFAULT_TIME_PER_STEP_RAW;
use crate::fixed::Fx;

verus! {

/// The simulation clock. Between ticks it is accumulating: `time_elapsed`
/// holds less than one whole `time_per_step`. A tick that pushes it to or
/// past `time_per_step` advances `step` by `step_size` once per whole
/// interval accumulated and keeps the remainder.
#[derive(Clone, Copy, Debug)]
pub struct SimulationStep {
    pub time_elapsed: Fx,
    pub time_per_step: Fx,
    pub step: u64,
    pub step_size: u64,
}

impl SimulationStep {
    /// The step interval is positive and the accumulator holds less than
    /// one whole interval.
    pub open spec fn wf(&self) -> bool {
        0 <= self.time_elapsed.raw < self.time_per_step.raw
    }
}

impl Default for SimulationStep {
    /// Step zero with nothing accumulated: interval 0.01, stride eight.
    fn default() -> (s: SimulationStep)
        ensures
            s.time_elapsed.raw == 0,
            s.time_per_step.raw == DEFAULT_TIME_PER_STEP_RAW,
            s.step == 0,
            s.step_size == 8,
            s.wf(),
    {
        SimulationStep {
            time_elapsed: Fx { raw: 0 },
            time_per_step: Fx { raw: DEFAULT_TIME_PER_STEP_RAW },
            step: 0,
            step_size: 8,
        }
    }
}

/// Advance the clock by one wall-clock delta: accumulate it, then turn
/// every whole `time_per_step` of the accumulation into `step_size`
/// absolute steps — a loop, not a single subtraction, so a slow frame
/// advances several steps and no remainder is lost.
pub fn simulation_system(sim: &mut SimulationStep, wall_delta: Fx)
    requires
        old(sim).wf(),
        wall_delta.raw >= 0,
        old(sim).time_elapsed.raw + wall_delta.raw <= i64::MAX,
        old(sim).step + ((old(sim).time_elapsed.raw + wall_delta.raw) / (
        old(sim).time_per_step.raw as int)) * old(sim).step_size <= u64::MAX,
    ensures
        final(sim).wf(),
        final(sim).time_per_step == old(sim).time_per_step,
        final(sim).step_size == old(sim).step_size,
        final(sim).time_elapsed.raw == (old(sim).time_elapsed.raw + wall_delta.raw) % (
        old(sim).time_per_step.raw as int),
        final(sim).step == old(sim).step + ((old(sim).time_elapsed.raw + wall_delta.raw) / (
        old(sim).time_per_step.raw as int)) * old(sim).step_size,
{
    let ghost total = old(sim).time_elapsed.raw + wall_delta.raw;
    let ghost tps = old(sim).time_per_step.raw as int;
    let ghost ss = old(sim).step_size as int;
    let mut e: i64 = sim.time_elapsed.raw + wall_delta.raw;
    let ghost mut k: int = 0;
    while e >= sim.time_per_step.raw
        invariant
            sim.time_per_step == old(sim).time_per_step,
            sim.step_size == old(sim).step_size,
            tps == sim.time_per_step.raw as int,
            ss == sim.step_size as int,
            0 < tps,
            0 <= e,
            (e as int) % tps == total % tps,
            k + (e as int) / tps == total / tps,
            0 <= k,
            sim.step == old(sim).step + k * ss,
            old(sim).step + (total / tps) * ss <= u64::MAX,
        decreases e,
    {
        proof {
            lemma_div_is_ordered(tps, e as int, tps);
            lemma_div_by_self(tps);
            assert(e as int / tps >= 1);
            assert((k + 1) * ss <= (k + e as int / tps) * ss) by (nonlinear_arith)
                requires
                    k + 1 <= k + e as int / tps,
                    ss >= 0,
            ;
            assert((k + 1) * ss == k * ss + ss) by (nonlinear_arith);
            assert(sim.step + sim.step_size <= u64::MAX);
            lemma_mod_sub_multiples_vanish(e as int, tps);
            lemma_div_minus_one(e as int, tps);
        }
        sim.step = sim.step + sim.step_size;
        e = e - sim.time_per_step.raw;
        proof {
            k = k + 1;
        }
    }
    proof {
        lemma_small_mod(e as nat, tps as nat);
        lemma_basic_div(e as int, tps);
        assert(e as int / tps == 0);
        assert(k == total / tps);
    }
    sim.time_elapsed = Fx { raw: e };
}

} // verus!

//! The restricted two-body derivative model: a child body accelerates
//! toward a parent position read from an already-computed parent
//! trajectory, which the child never perturbs.

use std::collections::HashMap;
use vstd::prelude::*;
use crate::fixed::{Fx, fx_add_spec, fx_div, fx_div_spec, fx_mul, fx_mul_spec, fx_neg, fx_neg_spec};
use crate::integrator::{Derivative, TWO_RAW, rk4_combine_spec, rk4_state_spec, rk4_step_spec,
    seq_add_spec, seq_scale_spec};
use crate::trajectory::{TrajectoryPoint, zero_point};
use crate::vector::{Vector3, v3_norm, v3_norm_spec, v3_sub, v3_sub_spec};

verus! {

/// Default clock interval and integrator step: 0.01 time units.
pub const DEFAULT_TIME_PER_STEP_RAW: i64 = 10_000_000_000;

/// The environment one batch extension runs in: the reduced mass of the
/// body's two-body subproblem, a snapshot of the parent's trajectory, the
/// absolute step the batch starts at, and the step length used both by the
/// integrator and to key parent lookups. Built fresh per batch and
/// discarded afterwards.
pub struct DeriveEnv {
    pub relative_mass: Fx,
    pub points: HashMap<u64, TrajectoryPoint>,
    pub current_step: u64,
    pub time_per_step: Fx,
}

impl DeriveEnv {
    /// An environment with no parent samples: every parent lookup resolves
    /// to the all-zero sample, as for a root body.
    pub fn empty(mu: Fx) -> (e: DeriveEnv)
        ensures
            e.relative_mass == mu,
            e.points@ == Map::<u64, TrajectoryPoint>::empty(),
            e.current_step == 0,
            e.time_per_step == (Fx { raw: DEFAULT_TIME_PER_STEP_RAW }),
    {
        DeriveEnv {
            relative_mass: mu,
            points: HashMap::new(),
            current_step: 0,
            time_per_step: Fx { raw: DEFAULT_TIME_PER_STEP_RAW },
        }
    }
}

impl Default for DeriveEnv {
    /// An environment whose parent stands still at the origin: one
    /// all-zero sample at step zero, zero reduced mass.
    fn default() -> (e: DeriveEnv)
        ensures
            e.relative_mass == (Fx { raw: 0 }),
            e.points@ == Map::<u64, TrajectoryPoint>::empty().insert(0u64, zero_point()),
            e.current_step == 0,
            e.time_per_step.raw == DEFAULT_TIME_PER_STEP_RAW,
    {
        let mut points: HashMap<u64, TrajectoryPoint> = HashMap::new();
        points.insert(
            0,
            TrajectoryPoint {
                time: Fx { raw: 0 },
                position: Vector3 { x: Fx { raw: 0 }, y: Fx { raw: 0 }, z: Fx { raw: 0 } },
                velocity: Vector3 { x: Fx { raw: 0 }, y: Fx { raw: 0 }, z: Fx { raw: 0 } },
            },
        );
        DeriveEnv {
            relative_mass: Fx { raw: 0 },
            points,
            current_step: 0,
            time_per_step: Fx { raw: DEFAULT_TIME_PER_STEP_RAW },
        }
    }
}

/// The parent-trajectory key consulted at an integrator parameter value:
/// the ceiling of `param / time_per_step`, or key zero when the parameter
/// or the step length is non-positive.
pub open spec fn lookup_key_spec(param: Fx, tps: Fx) -> u64 {
    if param.raw <= 0 || tps.raw <= 0 {
        0u64
    } else {
        ((param.raw + tps.raw - 1) / (tps.raw as int)) as u64
    }
}

/// The parent sample consulted for the step starting at an integrator
/// parameter value: the snapshot entry at the derived key, or the all-zero
/// sample when that key is absent (the recovered missing-parent-sample
/// case).
pub open spec fn parent_sample_spec(
    parent: Map<u64, TrajectoryPoint>,
    tps: Fx,
    param: Fx,
) -> TrajectoryPoint {
    let k = lookup_key_spec(param, tps);
    if parent.dom().contains(k) {
        parent[k]
    } else {
        zero_point()
    }
}

/// Derivative of the six-wide two-body state `[r2, v2]`: the position rate
/// is the velocity `v2`, and the velocity rate is the inverse-square
/// acceleration `-mu * (r2 - r1) / |r2 - r1|^3` toward the parent position
/// `r1`. `r1` is resolved from `base`, the parameter at the start of the
/// step, so one step's four sub-stages all read the same parent sample:
/// it is looked up once per step and never recomputed mid-step.
pub open spec fn tb_deriv_spec(
    mu: Fx,
    parent: Map<u64, TrajectoryPoint>,
    tps: Fx,
    state: Seq<Fx>,
    base: Fx,
) -> Seq<Fx> {
    let r1 = parent_sample_spec(parent, tps, base).position;
    let r2 = Vector3 { x: state[0], y: state[1], z: state[2] };
    let r12 = v3_sub_spec(r2, r1);
    let rn = v3_norm_spec(r12);
    let rn3 = fx_mul_spec(fx_mul_spec(rn, rn), rn);
    let ax = fx_neg_spec(fx_div_spec(fx_mul_spec(r12.x, mu), rn3));
    let ay = fx_neg_spec(fx_div_spec(fx_mul_spec(r12.y, mu), rn3));
    let az = fx_neg_spec(fx_div_spec(fx_mul_spec(r12.z, mu), rn3));
    seq![state[3], state[4], state[5], ax, ay, az]
}

/// The parent-trajectory key, as an executable value.
pub fn lookup_key(param: Fx, tps: Fx) -> (k: u64)
    ensures
        k == lookup_key_spec(param, tps),
{
    if param.raw <= 0 || tps.raw <= 0 {
        0
    } else {
        let p = param.raw as u128;
        let t = tps.raw as u128;
        let q = (p + t - 1) / t;
        proof {
            let pi = p as int;
            let ti = t as int;
            let qi = (pi + ti - 1) / ti;
            if qi > pi {
                assert(ti * qi >= ti * (pi + 1)) by (nonlinear_arith)
                    requires
                        qi >= pi + 1,
                        ti >= 1,
                ;
                assert(ti * (pi + 1) == ti * pi + ti) by (nonlinear_arith);
                assert(ti * pi >= pi) by (nonlinear_arith)
                    requires
                        pi >= 1,
                        ti >= 1,
                ;
                vstd::arithmetic::div_mod::lemma_fundamental_div_mod(pi + ti - 1, ti);
                assert(false);
            }
        }
        q as u64
    }
}

impl Derivative for DeriveEnv {
    /// Two-body states are six wide: three position, three velocity
    /// components.
    open spec fn dim(&self) -> nat {
        6
    }

    open spec fn deriv(&self, state: Seq<Fx>, param: Fx, base: Fx) -> Seq<Fx> {
        tb_deriv_spec(self.relative_mass, self.points@, self.time_per_step, state, base)
    }

    proof fn lemma_deriv_len(&self, state: Seq<Fx>, param: Fx, base: Fx) {
    }

    fn dim_exec(&self) -> (n: usize) {
        6
    }

    fn eval(&self, state: &Vec<Fx>, param: Fx, base: Fx) -> (d: Vec<Fx>) {
        let k = lookup_key(base, self.time_per_step);
        let r1 = match self.points.get(&k) {
            Some(p) => p.position,
            None => Vector3 { x: Fx { raw: 0 }, y: Fx { raw: 0 }, z: Fx { raw: 0 } },
        };
        let r2 = Vector3 { x: state[0], y: state[1], z: state[2] };
        let r12 = v3_sub(r2, r1);
        let rn = v3_norm(r12);
        let rn3 = fx_mul(fx_mul(rn, rn), rn);
        let ax = fx_neg(fx_div(fx_mul(r12.x, self.relative_mass), rn3));
        let ay = fx_neg(fx_div(fx_mul(r12.y, self.relative_mass), rn3));
        let az = fx_neg(fx_div(fx_mul(r12.z, self.relative_mass), rn3));
        let d: Vec<Fx> = vec![state[3], state[4], state[5], ax, ay, az];
        proof {
            assert(d@ =~= self.deriv(state@, param, base));
        }
        d
    }
}

/// One RK4 step of the two-body model: all four sub-stages read the
/// parent sample resolved once from the step's starting parameter `t`.
pub open spec fn tb_step_spec(
    mu: Fx,
    parent: Map<u64, TrajectoryPoint>,
    tps: Fx,
    s: Seq<Fx>,
    t: Fx,
    h: Fx,
) -> Seq<Fx> {
    let h2 = fx_div_spec(h, Fx { raw: TWO_RAW });
    let k1 = tb_deriv_spec(mu, parent, tps, s, t);
    let k2 = tb_deriv_spec(mu, parent, tps, seq_add_spec(s, seq_scale_spec(h2, k1)), t);
    let k3 = tb_deriv_spec(mu, parent, tps, seq_add_spec(s, seq_scale_spec(h2, k2)), t);
    let k4 = tb_deriv_spec(mu, parent, tps, seq_add_spec(s, seq_scale_spec(h, k3)), t);
    rk4_combine_spec(s, h, k1, k2, k3, k4)
}

/// The `i`-th sample of a two-body batch: parameter advanced `i` times by
/// `h`, state advanced by `i` RK4 steps.
pub open spec fn tb_state_spec(
    mu: Fx,
    parent: Map<u64, TrajectoryPoint>,
    tps: Fx,
    s0: Seq<Fx>,
    t0: Fx,
    h: Fx,
    i: nat,
) -> (Fx, Seq<Fx>)
    decreases i,
{
    if i == 0 {
        (t0, s0)
    } else {
        let prev = tb_state_spec(mu, parent, tps, s0, t0, h, (i - 1) as nat);
        (fx_add_spec(prev.0, h), tb_step_spec(mu, parent, tps, prev.1, prev.0, h))
    }
}

/// Instantiating the generic integrator at a `DeriveEnv` yields exactly
/// the two-body batch of the environment's parameters.
pub proof fn lemma_rk4_env_is_tb(env: DeriveEnv, s0: Seq<Fx>, t0: Fx, h: Fx, i: nat)
    ensures
        rk4_state_spec(env, s0, t0, h, i) == tb_state_spec(env.relative_mass, env.points@,
            env.time_per_step, s0, t0, h, i),
    decreases i,
{
    if i > 0 {
        lemma_rk4_env_is_tb(env, s0, t0, h, (i - 1) as nat);
        let prev = rk4_state_spec(env, s0, t0, h, (i - 1) as nat);
        assert(rk4_step_spec(env, prev.1, prev.0, h) == tb_step_spec(env.relative_mass,
            env.points@, env.time_per_step, prev.1, prev.0, h));
    }
}

} // verus!

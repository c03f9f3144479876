//! Per-body trajectory samples and the append-only, step-indexed cache.

use std::collections::HashMap;
use vstd::pervasive::unreached;
use vstd::prelude::*;
use crate::dynamics::{DEFAULT_TIME_PER_STEP_RAW, DeriveEnv, tb_state_spec, lemma_rk4_env_is_tb};
use crate::fixed::Fx;
use crate::integrator::{ExplicitOde, OdeState, lemma_rk4_state_len};
use crate::vector::{Vector3, v3_zero};

verus! {

/// One sample of a body's motion: the integrator's time parameter together
/// with position and velocity. Immutable once constructed.
#[derive(Clone, Copy, Debug, PartialEq, Eq, Structural)]
pub struct TrajectoryPoint {
    pub time: Fx,
    pub position: Vector3,
    pub velocity: Vector3,
}

/// The all-zero sample substituted for a missing parent lookup.
pub open spec fn zero_point() -> TrajectoryPoint {
    TrajectoryPoint { time: Fx { raw: 0 }, position: v3_zero(), velocity: v3_zero() }
}

impl TrajectoryPoint {
    /// Pack a time parameter, a position and a velocity into a sample.
    pub fn new(time: Fx, position: Vector3, velocity: Vector3) -> (r: TrajectoryPoint)
        ensures
            r == (TrajectoryPoint { time, position, velocity }),
    {
        TrajectoryPoint { time, position, velocity }
    }
}

/// Mathematical model of a [`Trajectory`]: the cached samples as a map from
/// absolute step to sample, the optional index of the parent body, and the
/// reduced mass of the body's two-body subproblem.
pub struct TrajModel {
    pub points: Map<u64, TrajectoryPoint>,
    pub center: Option<usize>,
    pub relative_mass: Fx,
}

impl TrajModel {
    /// The cached steps are contiguous from step zero: whenever a step is
    /// cached, so is every earlier step.
    pub open spec fn wf(self) -> bool {
        forall|j: u64, k: u64|
            j <= k && #[trigger] self.points.dom().contains(k) ==> #[trigger] self.points.dom().contains(
                j,
            )
    }
}

/// The six-wide integrator state of a sample: position then velocity.
pub open spec fn state_of_point(p: TrajectoryPoint) -> Seq<Fx> {
    seq![p.position.x, p.position.y, p.position.z, p.velocity.x, p.velocity.y, p.velocity.z]
}

/// The sample packed from an integrator parameter and a six-wide state.
pub open spec fn point_of_state(t: Fx, s: Seq<Fx>) -> TrajectoryPoint {
    TrajectoryPoint {
        time: t,
        position: Vector3 { x: s[0], y: s[1], z: s[2] },
        velocity: Vector3 { x: s[3], y: s[4], z: s[5] },
    }
}

/// The `i`-th sample of a batch integrated from `start` under reduced mass
/// `mu`, parent snapshot `parent` and step length `tps`.
pub open spec fn tb_point_spec(
    start: TrajectoryPoint,
    mu: Fx,
    parent: Map<u64, TrajectoryPoint>,
    tps: Fx,
    i: nat,
) -> TrajectoryPoint {
    let st = tb_state_spec(mu, parent, tps, state_of_point(start), start.time, tps, i);
    point_of_state(st.0, st.1)
}

/// The cache contents after a batch extension: for `i <= n` the entry at
/// step `cs + i` holds the `i`-th batch sample; all other entries are
/// unchanged.
pub open spec fn calc_points_upto(
    pts0: Map<u64, TrajectoryPoint>,
    start: TrajectoryPoint,
    mu: Fx,
    parent: Map<u64, TrajectoryPoint>,
    tps: Fx,
    cs: u64,
    n: nat,
) -> Map<u64, TrajectoryPoint>
    decreases n,
{
    if n == 0 {
        pts0.insert(cs, tb_point_spec(start, mu, parent, tps, 0))
    } else {
        calc_points_upto(pts0, start, mu, parent, tps, cs, (n - 1) as nat).insert(
            (cs + n) as u64,
            tb_point_spec(start, mu, parent, tps, n),
        )
    }
}

/// A batch extension populates exactly the steps `cs ..= cs + n` beyond
/// what was already cached.
pub proof fn lemma_calc_points_dom(
    pts0: Map<u64, TrajectoryPoint>,
    start: TrajectoryPoint,
    mu: Fx,
    parent: Map<u64, TrajectoryPoint>,
    tps: Fx,
    cs: u64,
    n: nat,
)
    requires
        cs + n <= u64::MAX,
    ensures
        forall|k: u64| #[trigger]
            calc_points_upto(pts0, start, mu, parent, tps, cs, n).dom().contains(k) <==> (
            pts0.dom().contains(k) || (cs <= k <= cs + n)),
    decreases n,
{
    if n > 0 {
        lemma_calc_points_dom(pts0, start, mu, parent, tps, cs, (n - 1) as nat);
        let prev = calc_points_upto(pts0, start, mu, parent, tps, cs, (n - 1) as nat);
        let cur = calc_points_upto(pts0, start, mu, parent, tps, cs, n);
        assert(cur == prev.insert((cs + n) as u64, tb_point_spec(start, mu, parent, tps, n)));
        assert(cs + n == ((cs + n) as u64));
        assert forall|k: u64| #[trigger] cur.dom().contains(k) implies (pts0.dom().contains(k) || (
        cs <= k <= cs + n)) by {
            if k != ((cs + n) as u64) {
                assert(prev.dom().contains(k));
            }
        }
        assert forall|k: u64| (pts0.dom().contains(k) || (cs <= k <= cs + n)) implies #[trigger] cur.dom().contains(
            k,
        ) by {
            if k == ((cs + n) as u64) {
            } else {
                assert(pts0.dom().contains(k) || (cs <= k <= cs + (n - 1)));
                assert(prev.dom().contains(k));
            }
        }
    }
}

/// Reduced mass governing a batch: the environment's, or the trajectory's
/// own when no environment is supplied.
pub open spec fn env_mu(environment: Option<DeriveEnv>, own_mu: Fx) -> Fx {
    match environment {
        Some(e) => e.relative_mass,
        None => own_mu,
    }
}

/// Parent snapshot governing a batch: the environment's, or empty.
pub open spec fn env_parent(environment: Option<DeriveEnv>) -> Map<u64, TrajectoryPoint> {
    match environment {
        Some(e) => e.points@,
        None => Map::<u64, TrajectoryPoint>::empty(),
    }
}

/// Step length governing a batch: the environment's, or the default.
pub open spec fn env_tps(environment: Option<DeriveEnv>) -> Fx {
    match environment {
        Some(e) => e.time_per_step,
        None => Fx { raw: DEFAULT_TIME_PER_STEP_RAW },
    }
}

/// Absolute step a batch starts at: the environment's, or zero.
pub open spec fn env_cs(environment: Option<DeriveEnv>) -> u64 {
    match environment {
        Some(e) => e.current_step,
        None => 0u64,
    }
}

/// A body's append-only cache of trajectory samples, keyed by absolute
/// simulation step, with an optional reference (by arena index) to the
/// parent body whose trajectory the samples were integrated against.
pub struct Trajectory {
    pub points: HashMap<u64, TrajectoryPoint>,
    pub center: Option<usize>,
    pub relative_mass: Fx,
}

impl View for Trajectory {
    type V = TrajModel;

    open spec fn view(&self) -> TrajModel {
        TrajModel { points: self.points@, center: self.center, relative_mass: self.relative_mass }
    }
}

impl Trajectory {
    /// The cache invariant: cached steps are contiguous from step zero.
    pub open spec fn wf(&self) -> bool {
        self@.wf()
    }

    /// An empty cache for a body with the given parent and reduced mass.
    pub fn new(center: Option<usize>, mu: Fx) -> (r: Trajectory)
        ensures
            r@.points == Map::<u64, TrajectoryPoint>::empty(),
            r@.center == center,
            r@.relative_mass == mu,
            r.wf(),
    {
        Trajectory { points: HashMap::new(), center, relative_mass: mu }
    }

    /// The sample at an absolute step, or `None` while that step is not yet
    /// computed.
    pub fn lookup(&self, step: u64) -> (r: Option<TrajectoryPoint>)
        ensures
            r == (if self@.points.dom().contains(step) {
                Some(self@.points[step])
            } else {
                None::<TrajectoryPoint>
            }),
    {
        match self.points.get(&step) {
            Some(p) => Some(*p),
            None => None,
        }
    }

    /// Extend the cache with one integration batch: `times + 1` samples
    /// integrated from `start_point` under `environment` (or, without one,
    /// under an empty environment with this trajectory's own reduced
    /// mass), inserted at the absolute steps `current_step ..= current_step
    /// + times`. Identical inputs always produce identical samples, so
    /// overwriting an already-cached step is an idempotent re-computation.
    pub fn calculate(&mut self, start_point: &TrajectoryPoint, environment: Option<DeriveEnv>, times: usize)
        requires
            old(self).wf(),
            times < usize::MAX,
            env_cs(environment) + times <= u64::MAX,
            env_cs(environment) == 0 || old(self)@.points.dom().contains(
                (env_cs(environment) - 1) as u64,
            ),
        ensures
            final(self).wf(),
            final(self)@.center == old(self)@.center,
            final(self)@.relative_mass == old(self)@.relative_mass,
            final(self)@.points == calc_points_upto(
                old(self)@.points,
                *start_point,
                env_mu(environment, old(self)@.relative_mass),
                env_parent(environment),
                env_tps(environment),
                env_cs(environment),
                times as nat,
            ),
    {
        let ghost pts0 = self@.points;
        let ghost mu = env_mu(environment, self.relative_mass);
        let ghost parent = env_parent(environment);
        let ghost tps = env_tps(environment);
        let env: DeriveEnv = match environment {
            Some(e) => e,
            None => DeriveEnv::empty(self.relative_mass),
        };
        let cs = env.current_step;
        let h = env.time_per_step;
        let init_value: Vec<Fx> = vec![
            start_point.position.x,
            start_point.position.y,
            start_point.position.z,
            start_point.velocity.x,
            start_point.velocity.y,
            start_point.velocity.z,
        ];
        let init = OdeState { param: start_point.time, value: init_value };
        let ghost s0 = init.value@;
        let ghost t0 = init.param;
        let ghost genv = env;
        let ode = match ExplicitOde::new(env, init) {
            Ok(o) => o,
            Err(_) => {
                proof {
                    assert(false);
                }
                unreached()
            },
        };
        let result = ode.integrate(h, times);
        proof {
            assert(s0 =~= state_of_point(*start_point));
            assert forall|i: nat| i <= times implies {
                let st = tb_state_spec(mu, parent, tps, state_of_point(*start_point),
                    start_point.time, tps, i);
                #[trigger] result@[i as int].param == st.0 && result@[i as int].value@ == st.1
                    && st.1.len() == 6
            } by {
                lemma_rk4_env_is_tb(genv, s0, t0, h, i);
                lemma_rk4_state_len(genv, s0, t0, h, i);
            }
        }
        let mut n: usize = 0;
        while n < times + 1
            invariant
                n <= times + 1,
                times < usize::MAX,
                cs == env_cs(environment),
                cs + times <= u64::MAX,
                result@.len() == times + 1,
                forall|i: nat|
                    i <= times ==> {
                        let st = tb_state_spec(mu, parent, tps, state_of_point(*start_point),
                            start_point.time, tps, i);
                        #[trigger] result@[i as int].param == st.0 && result@[i as int].value@
                            == st.1 && st.1.len() == 6
                    },
                self@.center == old(self)@.center,
                self@.relative_mass == old(self)@.relative_mass,
                n == 0 ==> self@.points == pts0,
                n > 0 ==> self@.points == calc_points_upto(pts0, *start_point, mu, parent, tps, cs,
                    (n - 1) as nat),
            decreases times + 1 - n,
        {
            let p = &result[n];
            let sample = TrajectoryPoint {
                time: p.param,
                position: Vector3 { x: p.value[0], y: p.value[1], z: p.value[2] },
                velocity: Vector3 { x: p.value[3], y: p.value[4], z: p.value[5] },
            };
            proof {
                assert(sample == tb_point_spec(*start_point, mu, parent, tps, n as nat));
            }
            self.points.insert(cs + (n as u64), sample);
            n = n + 1;
            proof {
                assert(self@.points == calc_points_upto(pts0, *start_point, mu, parent, tps, cs,
                    (n - 1) as nat));
            }
        }
        proof {
            lemma_calc_points_dom(pts0, *start_point, mu, parent, tps, cs, times as nat);
            assert forall|j: u64, k: u64|
                j <= k && #[trigger] self@.points.dom().contains(k) implies #[trigger] self@.points.dom().contains(
                j,
            ) by {
                if cs <= j <= cs + times {
                } else if j > cs + times {
                    assert(pts0.dom().contains(k));
                    assert(pts0.dom().contains(j));
                } else {
                    assert(j < cs);
                    assert(cs >= 1);
                    assert(pts0.dom().contains((cs - 1) as u64));
                    assert(j <= (cs - 1) as u64);
                    assert(pts0.dom().contains(j));
                }
            }
        }
    }
}

impl Default for Trajectory {
    /// A root trajectory seeded with the all-zero sample at step zero.
    fn default() -> (r: Trajectory)
        ensures
            r@.points == Map::<u64, TrajectoryPoint>::empty().insert(0u64, zero_point()),
            r@.center == None::<usize>,
            r@.relative_mass == (Fx { raw: 0 }),
            r.wf(),
    {
        let mut points: HashMap<u64, TrajectoryPoint> = HashMap::new();
        points.insert(
            0,
            TrajectoryPoint {
                time: Fx { raw: 0 },
                position: Vector3 { x: Fx { raw: 0 }, y: Fx { raw: 0 }, z: Fx { raw: 0 } },
                velocity: Vector3 { x: Fx { raw: 0 }, y: Fx { raw: 0 }, z: Fx { raw: 0 } },
            },
        );
        Trajectory { points, center: None, relative_mass: Fx { raw: 0 } }
    }
}

} // verus!

use orbit_engine::body::Planet;
use orbit_engine::dynamics::DeriveEnv;
use orbit_engine::fixed::{Fx, SCALE};
use orbit_engine::integrator::{ExplicitOde, OdeError, OdeState};
use orbit_engine::trajectory::{Trajectory, TrajectoryPoint};
use orbit_engine::vector::Vector3;

fn fx(raw: i64) -> Fx {
    Fx { raw }
}

fn v3(x: i64, y: i64, z: i64) -> Vector3 {
    Vector3 { x: fx(x), y: fx(y), z: fx(z) }
}

fn start_point() -> TrajectoryPoint {
    TrajectoryPoint::new(fx(0), v3(20 * SCALE, 0, 0), v3(0, 0, SCALE / 5))
}

#[test]
fn new_trajectory_is_empty() {
    let t = Trajectory::new(None, fx(SCALE));
    assert!(t.lookup(0).is_none());
}

#[test]
fn default_trajectory_has_zero_seed() {
    let t = Trajectory::default();
    let p = t.lookup(0).unwrap();
    assert_eq!(p.position.x.raw, 0);
    assert_eq!(p.velocity.z.raw, 0);
    assert!(t.lookup(1).is_none());
}

#[test]
fn calculate_covers_batch_range() {
    let mut t = Trajectory::new(None, fx(SCALE));
    t.calculate(&start_point(), None, 10);
    for step in 0..=10u64 {
        assert!(t.lookup(step).is_some());
    }
    assert!(t.lookup(11).is_none());
    let first = t.lookup(0).unwrap();
    assert_eq!(first.time.raw, 0);
    assert_eq!(first.position.x.raw, 20 * SCALE);
    assert_eq!(first.velocity.z.raw, SCALE / 5);
}

#[test]
fn calculate_is_deterministic() {
    // Identical (start_point, environment, batch_size) twice: bit-identical
    // output sequences.
    let mut a = Trajectory::new(None, fx(SCALE / 2));
    let mut b = Trajectory::new(None, fx(SCALE / 2));
    a.calculate(&start_point(), None, 64);
    b.calculate(&start_point(), None, 64);
    for step in 0..=64u64 {
        let pa = a.lookup(step).unwrap();
        let pb = b.lookup(step).unwrap();
        assert_eq!(pa.time.raw, pb.time.raw);
        assert_eq!(pa.position.x.raw, pb.position.x.raw);
        assert_eq!(pa.position.y.raw, pb.position.y.raw);
        assert_eq!(pa.position.z.raw, pb.position.z.raw);
        assert_eq!(pa.velocity.x.raw, pb.velocity.x.raw);
        assert_eq!(pa.velocity.y.raw, pb.velocity.y.raw);
        assert_eq!(pa.velocity.z.raw, pb.velocity.z.raw);
    }
}

#[test]
fn recalculate_overwrites_idempotently() {
    let mut once = Trajectory::new(None, fx(SCALE / 2));
    let mut twice = Trajectory::new(None, fx(SCALE / 2));
    once.calculate(&start_point(), None, 32);
    twice.calculate(&start_point(), None, 32);
    twice.calculate(&start_point(), None, 32);
    for step in 0..=32u64 {
        let pa = once.lookup(step).unwrap();
        let pb = twice.lookup(step).unwrap();
        assert_eq!(pa.position.x.raw, pb.position.x.raw);
        assert_eq!(pa.position.z.raw, pb.position.z.raw);
    }
}

#[test]
fn rootless_equals_empty_parent() {
    // A body with no parent and a body whose parent snapshot is empty
    // produce identical trajectories.
    let mu = fx(SCALE / 4);
    let mut without = Trajectory::new(None, mu);
    without.calculate(&start_point(), None, 50);
    let mut with_empty = Trajectory::new(Some(0), mu);
    with_empty.calculate(&start_point(), Some(DeriveEnv::empty(mu)), 50);
    for step in 0..=50u64 {
        let pa = without.lookup(step).unwrap();
        let pb = with_empty.lookup(step).unwrap();
        assert_eq!(pa.position.x.raw, pb.position.x.raw);
        assert_eq!(pa.position.y.raw, pb.position.y.raw);
        assert_eq!(pa.position.z.raw, pb.position.z.raw);
        assert_eq!(pa.velocity.x.raw, pb.velocity.x.raw);
        assert_eq!(pa.velocity.z.raw, pb.velocity.z.raw);
    }
}

#[test]
fn zero_mass_free_motion_is_linear() {
    // With zero reduced mass there is no acceleration: each step moves the
    // body by h * v with h = 0.01, v = 1.0, up to the one truncation in
    // h/6 = 0.01/6.
    let mut t = Trajectory::new(None, fx(0));
    let start = TrajectoryPoint::new(fx(0), v3(0, 0, 0), v3(SCALE, 0, 0));
    t.calculate(&start, None, 2);
    let p1 = t.lookup(1).unwrap();
    // h/6 truncates to 1_666_666_666, and 6 * 1_666_666_666 = 9_999_999_996
    assert_eq!(p1.position.x.raw, 9_999_999_996);
    assert_eq!(p1.velocity.x.raw, SCALE);
    assert_eq!(p1.time.raw, 10_000_000_000);
    let p2 = t.lookup(2).unwrap();
    assert_eq!(p2.position.x.raw, 2 * 9_999_999_996);
    assert_eq!(p2.time.raw, 20_000_000_000);
}

#[test]
fn registration_rejects_wrong_width() {
    let env = DeriveEnv::empty(fx(SCALE));
    let init = OdeState { param: fx(0), value: vec![fx(0); 5] };
    match ExplicitOde::new(env, init) {
        Err(OdeError::InvalidStateDimension) => {},
        Ok(_) => panic!("five-wide state accepted by a six-wide model"),
    }
}

#[test]
fn registration_accepts_matching_width() {
    let env = DeriveEnv::empty(fx(SCALE));
    let init = OdeState { param: fx(0), value: vec![fx(0); 6] };
    assert!(ExplicitOde::new(env, init).is_ok());
}

#[test]
fn reduced_mass_of_scenario_masses() {
    // m1 = 333, m2 = 1: mu = 333/334 = 0.99700598802395...
    let mu = Planet::relative_mass(fx(333 * SCALE), fx(SCALE));
    assert_eq!(mu.raw, 997_005_988_023);
}

#[test]
fn reduced_mass_of_zero_sum_is_zero() {
    let mu = Planet::relative_mass(fx(SCALE), fx(-SCALE));
    assert_eq!(mu.raw, 0);
}

#[test]
fn planet_holds_mass() {
    let p = Planet::new(fx(100 * SCALE));
    assert_eq!(p.mass.raw, 100 * SCALE);
    let _sun = orbit_engine::body::Sun;
}

fn env_with_parent(samples: &[(u64, Vector3)]) -> DeriveEnv {
    let mut env = DeriveEnv::empty(fx(SCALE / 2));
    for (step, position) in samples {
        env.points.insert(
            *step,
            TrajectoryPoint::new(fx(0), *position, v3(0, 0, 0)),
        );
    }
    env
}

#[test]
fn parent_sample_fixed_within_step() {
    // One integration step starting at t = 0 reads the parent sample for
    // step 0 in all four stages; the sample at step 1 plays no part until
    // the next step begins.
    let start = TrajectoryPoint::new(fx(0), v3(2 * SCALE, 0, 0), v3(0, SCALE / 2, 0));
    let near = env_with_parent(&[(0, v3(SCALE, 0, 0)), (1, v3(SCALE, 0, 0))]);
    let far = env_with_parent(&[(0, v3(SCALE, 0, 0)), (1, v3(-7 * SCALE, 5 * SCALE, SCALE))]);
    let mut a = Trajectory::new(Some(0), fx(SCALE / 2));
    let mut b = Trajectory::new(Some(0), fx(SCALE / 2));
    a.calculate(&start, Some(near), 1);
    b.calculate(&start, Some(far), 1);
    let pa = a.lookup(1).unwrap();
    let pb = b.lookup(1).unwrap();
    assert_eq!(pa.position.x.raw, pb.position.x.raw);
    assert_eq!(pa.position.y.raw, pb.position.y.raw);
    assert_eq!(pa.velocity.x.raw, pb.velocity.x.raw);
    assert_eq!(pa.velocity.y.raw, pb.velocity.y.raw);

    // The sample at step 0 does act on the step: moving it changes the
    // acceleration the batch integrates.
    let moved = env_with_parent(&[(0, v3(0, 0, 0)), (1, v3(SCALE, 0, 0))]);
    let mut c = Trajectory::new(Some(0), fx(SCALE / 2));
    c.calculate(&start, Some(moved), 1);
    let pc = c.lookup(1).unwrap();
    assert_ne!(pa.velocity.x.raw, pc.velocity.x.raw);
}

#[test]
fn default_env_parent_stands_still_at_origin() {
    let env = DeriveEnv::default();
    assert_eq!(env.relative_mass.raw, 0);
    assert_eq!(env.current_step, 0);
    assert_eq!(env.time_per_step.raw, 10_000_000_000);
    let seed = env.points.get(&0).unwrap();
    assert_eq!(seed.position.x.raw, 0);
    assert_eq!(seed.velocity.z.raw, 0);
    assert!(env.points.get(&1).is_none());
}

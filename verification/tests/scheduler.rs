use orbit_engine::clock::SimulationStep;
use orbit_engine::fixed::{Fx, SCALE};
use orbit_engine::scheduler::{SimError, debug_system, trajectory_system, transform_system};
use orbit_engine::trajectory::{Trajectory, TrajectoryPoint};
use orbit_engine::vector::Vector3;

fn fx(raw: i64) -> Fx {
    Fx { raw }
}

fn v3(x: i64, y: i64, z: i64) -> Vector3 {
    Vector3 { x: fx(x), y: fx(y), z: fx(z) }
}

fn seeded_pair(batch: usize) -> Vec<Trajectory> {
    let mu_earth = fx(997_005_988_023);
    let mut earth = Trajectory::new(None, mu_earth);
    earth.calculate(
        &TrajectoryPoint::new(fx(0), v3(20 * SCALE, 0, 0), v3(0, 0, 223_271_000_000)),
        None,
        batch,
    );
    let mu_moon = fx(14_897_000_000);
    let mut moon = Trajectory::new(Some(0), mu_moon);
    moon.calculate(
        &TrajectoryPoint::new(fx(0), v3(21_500_000_000_000, 0, 0), v3(0, 0, 99_656_000_000)),
        None,
        batch,
    );
    vec![earth, moon]
}

#[test]
fn pass_extends_uncovered_bodies() {
    let mut bodies = seeded_pair(100);
    let mut sim = SimulationStep::default();
    sim.step = 96;
    // next = 104 is beyond the seeded range 0..=100: both bodies extend by
    // a batch of 200 from their sample at step 96.
    let r = trajectory_system(&mut bodies, &sim, 200);
    assert!(r.is_ok());
    for b in &bodies {
        assert!(b.lookup(104).is_some());
        assert!(b.lookup(296).is_some());
        assert!(b.lookup(297).is_none());
    }
}

#[test]
fn pass_leaves_covered_bodies_alone() {
    let mut bodies = seeded_pair(100);
    let before: Vec<_> = (0..=100u64).map(|s| bodies[0].lookup(s).unwrap().position.x.raw).collect();
    let sim = SimulationStep::default();
    // next = 8 is already covered: nothing changes.
    let r = trajectory_system(&mut bodies, &sim, 200);
    assert!(r.is_ok());
    assert!(bodies[0].lookup(101).is_none());
    let after: Vec<_> = (0..=100u64).map(|s| bodies[0].lookup(s).unwrap().position.x.raw).collect();
    assert_eq!(before, after);
}

#[test]
fn pass_fails_on_desynchronized_cache() {
    // A body lacking both the lookahead step and the current step is the
    // fatal cache-desynchronization case.
    let mut bodies = vec![Trajectory::new(None, fx(SCALE))];
    let sim = SimulationStep::default();
    let r = trajectory_system(&mut bodies, &sim, 100);
    assert_eq!(r, Err(SimError::MissingCurrentPoint));
}

#[test]
fn child_extension_stays_within_parent() {
    // Uniformly seeded bodies stay in lockstep: after a pass, every step
    // the child covers is covered by its parent.
    let mut bodies = seeded_pair(100);
    let mut sim = SimulationStep::default();
    sim.step = 96;
    trajectory_system(&mut bodies, &sim, 200).unwrap();
    for step in 0..=296u64 {
        if bodies[1].lookup(step).is_some() {
            assert!(bodies[0].lookup(step).is_some());
        }
    }
}

#[test]
fn transform_projects_positions() {
    let bodies = seeded_pair(50);
    let r = transform_system(&bodies, 0);
    assert_eq!(r.len(), 2);
    assert_eq!(r[0].unwrap().x.raw, 20 * SCALE);
    assert_eq!(r[1].unwrap().x.raw, 21_500_000_000_000);
    let missing = transform_system(&bodies, 51);
    assert!(missing[0].is_none());
    assert!(missing[1].is_none());
}

#[test]
fn debug_segments_step_by_draw_distance() {
    let bodies = seeded_pair(240);
    let segs = debug_system(&bodies);
    assert_eq!(segs.len(), 2);
    // 241 samples: chords (0,120) and (120,240); 360 is absent.
    assert_eq!(segs[0].len(), 2);
    let p0 = bodies[0].lookup(0).unwrap().position;
    let p120 = bodies[0].lookup(120).unwrap().position;
    let p240 = bodies[0].lookup(240).unwrap().position;
    assert_eq!(segs[0][0].0.x.raw, p0.x.raw);
    assert_eq!(segs[0][0].1.x.raw, p120.x.raw);
    assert_eq!(segs[0][1].0.z.raw, p120.z.raw);
    assert_eq!(segs[0][1].1.z.raw, p240.z.raw);
}

#[test]
fn debug_segments_empty_for_short_cache() {
    let bodies = seeded_pair(50);
    let segs = debug_system(&bodies);
    assert_eq!(segs[0].len(), 0);
    assert_eq!(segs[1].len(), 0);
}

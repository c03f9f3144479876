use orbit_engine::body::Planet;
use orbit_engine::fixed::{Fx, SCALE, fx_div, fx_sqrt};
use orbit_engine::trajectory::{Trajectory, TrajectoryPoint};
use orbit_engine::vector::Vector3;

fn fx(raw: i64) -> Fx {
    Fx { raw }
}

fn v3(x: i64, y: i64, z: i64) -> Vector3 {
    Vector3 { x: fx(x), y: fx(y), z: fx(z) }
}

fn as_f64(v: Fx) -> f64 {
    v.raw as f64 / SCALE as f64
}

/// Scenario A: a circular orbit of radius 20 about the origin with masses
/// 333 and 1, seeded with the circular-orbit speed `v = sqrt(mu / r)`.
/// After 56 280 steps of size 0.01 — one orbital period — the position
/// returns to (20, 0, 0) within 1% relative error.
#[test]
fn circular_orbit_closes_after_one_period() {
    let r_mag = fx(20 * SCALE);
    let mu = Planet::relative_mass(fx(333 * SCALE), fx(SCALE));
    assert_eq!(mu.raw, 997_005_988_023);
    let v_mag = fx_sqrt(fx_div(mu, r_mag));
    let mut traj = Trajectory::new(None, mu);
    let start = TrajectoryPoint::new(fx(0), v3(20 * SCALE, 0, 0), v3(0, 0, v_mag.raw));
    traj.calculate(&start, None, 56_280);

    let end = traj.lookup(56_280).expect("batch covers the full period");
    let dx = as_f64(end.position.x) - 20.0;
    let dy = as_f64(end.position.y);
    let dz = as_f64(end.position.z);
    let miss = (dx * dx + dy * dy + dz * dz).sqrt();
    assert!(miss <= 0.01 * 20.0, "orbit failed to close: miss = {miss}");

    // Halfway around, the body is near (-20, 0, 0).
    let half = traj.lookup(28_140).unwrap();
    assert!((as_f64(half.position.x) + 20.0).abs() <= 0.02 * 20.0);

    // The orbit stays at radius 20 throughout (checked at a few samples).
    for step in [7_035u64, 14_070, 21_105, 35_175, 49_245] {
        let p = traj.lookup(step).unwrap();
        let x = as_f64(p.position.x);
        let y = as_f64(p.position.y);
        let z = as_f64(p.position.z);
        let radius = (x * x + y * y + z * z).sqrt();
        assert!((radius - 20.0).abs() <= 0.01 * 20.0, "radius drifted to {radius}");
    }
}

use orbit_engine::clock::{SimulationStep, simulation_system};
use orbit_engine::fixed::Fx;

#[test]
fn default_clock() {
    let s = SimulationStep::default();
    assert_eq!(s.time_elapsed.raw, 0);
    assert_eq!(s.time_per_step.raw, 10_000_000_000);
    assert_eq!(s.step, 0);
    assert_eq!(s.step_size, 8);
}

#[test]
fn catch_up_advances_three_whole_steps() {
    // time_per_step = 0.01, step_size = 8: one wall delta of 0.035 advances
    // the step counter by exactly 24 and leaves 0.005 accumulated.
    let mut s = SimulationStep::default();
    simulation_system(&mut s, Fx { raw: 35_000_000_000 });
    assert_eq!(s.step, 24);
    assert_eq!(s.time_elapsed.raw, 5_000_000_000);
}

#[test]
fn small_delta_only_accumulates() {
    let mut s = SimulationStep::default();
    simulation_system(&mut s, Fx { raw: 5_000_000_000 });
    assert_eq!(s.step, 0);
    assert_eq!(s.time_elapsed.raw, 5_000_000_000);
}

#[test]
fn remainder_carries_across_ticks() {
    let mut s = SimulationStep::default();
    simulation_system(&mut s, Fx { raw: 6_000_000_000 });
    assert_eq!(s.step, 0);
    simulation_system(&mut s, Fx { raw: 6_000_000_000 });
    assert_eq!(s.step, 8);
    assert_eq!(s.time_elapsed.raw, 2_000_000_000);
}

#[test]
fn exact_boundary_advances_once() {
    let mut s = SimulationStep::default();
    simulation_system(&mut s, Fx { raw: 10_000_000_000 });
    assert_eq!(s.step, 8);
    assert_eq!(s.time_elapsed.raw, 0);
}

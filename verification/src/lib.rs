//! Orbital trajectory engine: a fixed-step explicit Runge-Kutta integrator,
//! a restricted two-body derivative model that follows a parent body's
//! already-computed trajectory, an append-only per-body trajectory cache
//! keyed by absolute simulation step, and a fixed-timestep simulation clock
//! with a scheduler that extends each cache in large batches ahead of
//! playback.
//!
//! All arithmetic is carried out on [`fixed::Fx`], a decimal fixed-point
//! scalar with fully specified, total semantics, so every numeric result of
//! the engine is pinned down exactly by the contracts.

pub mod body;
pub mod clock;
pub mod dynamics;
pub mod fixed;
pub mod integrator;
pub mod laws;
pub mod scheduler;
pub mod trajectory;
pub mod vector;

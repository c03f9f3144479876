//! Bodies: the central marker, orbiting bodies, and the reduced mass of a
//! restricted two-body subproblem.

use vstd::prelude::*;
use crate::fixed::{Fx, fx_add_spec, fx_div_spec, fx_mul_spec, fx_add, fx_div, fx_mul};

verus! {

/// Marker for the central body, which stands still at the origin.
pub struct Sun;

/// An orbiting body.
#[derive(Clone, Copy, Debug, PartialEq, Eq, Structural)]
pub struct Planet {
    pub mass: Fx,
}

/// The reduced mass `m1 * m2 / (m1 + m2)`, which collapses a two-body
/// problem into an equivalent one-body problem about a fixed center.
pub open spec fn relative_mass_spec(m1: Fx, m2: Fx) -> Fx {
    fx_div_spec(fx_mul_spec(m1, m2), fx_add_spec(m1, m2))
}

impl Planet {
    /// A body of the given mass.
    pub fn new(mass: Fx) -> (r: Planet)
        ensures
            r.mass == mass,
    {
        Planet { mass }
    }

    /// The reduced mass `m1 * m2 / (m1 + m2)` of two bodies.
    pub fn relative_mass(m1: Fx, m2: Fx) -> (r: Fx)
        ensures
            r == relative_mass_spec(m1, m2),
    {
        fx_div(fx_mul(m1, m2), fx_add(m1, m2))
    }
}

} // verus!

//! Three-component vector arithmetic over the fixed-point scalar.

use vstd::prelude::*;
use crate::fixed::{Fx, fx_add, fx_add_spec, fx_mul, fx_mul_spec, fx_sqrt, fx_sqrt_spec, fx_sub,
    fx_sub_spec};

verus! {

/// A three-component vector of fixed-point scalars.
#[derive(Clone, Copy, Debug, PartialEq, Eq, Structural)]
pub struct Vector3 {
    pub x: Fx,
    pub y: Fx,
    pub z: Fx,
}

/// The zero vector.
pub open spec fn v3_zero() -> Vector3 {
    Vector3 { x: Fx { raw: 0 }, y: Fx { raw: 0 }, z: Fx { raw: 0 } }
}

/// Componentwise sum.
pub open spec fn v3_add_spec(a: Vector3, b: Vector3) -> Vector3 {
    Vector3 { x: fx_add_spec(a.x, b.x), y: fx_add_spec(a.y, b.y), z: fx_add_spec(a.z, b.z) }
}

/// Componentwise difference.
pub open spec fn v3_sub_spec(a: Vector3, b: Vector3) -> Vector3 {
    Vector3 { x: fx_sub_spec(a.x, b.x), y: fx_sub_spec(a.y, b.y), z: fx_sub_spec(a.z, b.z) }
}

/// Scalar multiple.
pub open spec fn v3_scale_spec(c: Fx, a: Vector3) -> Vector3 {
    Vector3 { x: fx_mul_spec(c, a.x), y: fx_mul_spec(c, a.y), z: fx_mul_spec(c, a.z) }
}

/// Euclidean norm: the fixed-point square root of the sum of squares.
pub open spec fn v3_norm_spec(a: Vector3) -> Fx {
    fx_sqrt_spec(
        fx_add_spec(
            fx_add_spec(fx_mul_spec(a.x, a.x), fx_mul_spec(a.y, a.y)),
            fx_mul_spec(a.z, a.z),
        ),
    )
}

/// Componentwise sum.
pub fn v3_add(a: Vector3, b: Vector3) -> (r: Vector3)
    ensures
        r == v3_add_spec(a, b),
{
    Vector3 { x: fx_add(a.x, b.x), y: fx_add(a.y, b.y), z: fx_add(a.z, b.z) }
}

/// Componentwise difference.
pub fn v3_sub(a: Vector3, b: Vector3) -> (r: Vector3)
    ensures
        r == v3_sub_spec(a, b),
{
    Vector3 { x: fx_sub(a.x, b.x), y: fx_sub(a.y, b.y), z: fx_sub(a.z, b.z) }
}

/// Scalar multiple.
pub fn v3_scale(c: Fx, a: Vector3) -> (r: Vector3)
    ensures
        r == v3_scale_spec(c, a),
{
    Vector3 { x: fx_mul(c, a.x), y: fx_mul(c, a.y), z: fx_mul(c, a.z) }
}

/// Euclidean norm.
pub fn v3_norm(a: Vector3) -> (r: Fx)
    ensures
        r == v3_norm_spec(a),
{
    fx_sqrt(fx_add(fx_add(fx_mul(a.x, a.x), fx_mul(a.y, a.y)), fx_mul(a.z, a.z)))
}

} // verus!

//! Tests on vectors whose components are given as scalars.
use vstd::prelude::*;

verus! {

/// Every component lies strictly between `-epsilon` and `epsilon`.
pub open spec fn spec_is_near_zero(x: i64, y: i64, z: i64, epsilon: i64) -> bool {
    &&& -epsilon < x < epsilon
    &&& -epsilon < y < epsilon
    &&& -epsilon < z < epsilon
}

/// Whether a vector is too short to serve as a direction: each of its
/// components is smaller in magnitude than `epsilon`.
pub fn is_near_zero(x: i64, y: i64, z: i64, epsilon: i64) -> (near: bool)
    ensures
        near == spec_is_near_zero(x, y, z, epsilon),
{
    if epsilon <= 0 {
        return false;
    }
    let low: i64 = -epsilon;
    low < x && x < epsilon && low < y && y < epsilon && low < z && z < epsilon
}

/// Whether a point lies strictly inside the unit sphere, or the unit disk,
/// about the origin: `len_sq` is its squared distance from the origin and
/// `unit` the scalar that stands for one. Random points are drawn until one
/// passes this test.
pub fn inside_unit(len_sq: i64, unit: i64) -> (inside: bool)
    ensures
        inside == (len_sq < unit),
{
    len_sq < unit
}

} // verus!

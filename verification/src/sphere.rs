//! The built-in classifier: a solid ball around the origin of the lattice.

use vstd::prelude::*;
use crate::fill::OctantFillState;
use crate::lattice::{Point, Vec3};

verus! {

/// The absolute value of `a`.
pub open spec fn magnitude(a: int) -> int {
    if a >= 0 {
        a
    } else {
        -a
    }
}

/// The smaller of `a` and `b`.
pub open spec fn lesser(a: int, b: int) -> int {
    if a <= b {
        a
    } else {
        b
    }
}

/// The larger of `a` and `b`.
pub open spec fn greater(a: int, b: int) -> int {
    if a >= b {
        a
    } else {
        b
    }
}

/// Per axis, the smaller of the two corners' distances from the origin.
pub open spec fn near_extent(inner: Point, outer: Point) -> Point {
    Point {
        x: lesser(magnitude(inner.x), magnitude(outer.x)),
        y: lesser(magnitude(inner.y), magnitude(outer.y)),
        z: lesser(magnitude(inner.z), magnitude(outer.z)),
    }
}

/// Per axis, the larger of the two corners' distances from the origin.
pub open spec fn far_extent(inner: Point, outer: Point) -> Point {
    Point {
        x: greater(magnitude(inner.x), magnitude(outer.x)),
        y: greater(magnitude(inner.y), magnitude(outer.y)),
        z: greater(magnitude(inner.z), magnitude(outer.z)),
    }
}

/// Whether `p` lies strictly closer to the origin than `radius`.
///
/// The length of `p` is below `radius` exactly when `radius` is positive and
/// the squared length is below the squared radius.
pub open spec fn within_radius(p: Point, radius: int) -> bool {
    radius > 0 && p.norm_squared() < radius * radius
}

/// How a ball of the given radius around the origin fills the octant with the
/// given extreme corners: not at all where even the near extent is outside,
/// wholly where the far extent is inside, partly otherwise.
pub open spec fn sphere_fill_state(radius: int, inner: Point, outer: Point) -> OctantFillState {
    if within_radius(near_extent(inner, outer), radius) {
        if within_radius(far_extent(inner, outer), radius) {
            OctantFillState::Full
        } else {
            OctantFillState::ContainsVoxel
        }
    } else {
        OctantFillState::Empty
    }
}

/// The absolute value of a coordinate.
fn magnitude_of(a: i64) -> (m: u64)
    ensures
        m == magnitude(a as int),
{
    if a >= 0 {
        a as u64
    } else if a == i64::MIN {
        0x8000_0000_0000_0000u64
    } else {
        (-a) as u64
    }
}

/// The squared length of the vector with the given absolute components.
fn norm_squared_of(x: u64, y: u64, z: u64) -> (n: u128)
    requires
        x <= 0x8000_0000_0000_0000u64,
        y <= 0x8000_0000_0000_0000u64,
        z <= 0x8000_0000_0000_0000u64,
    ensures
        n == x * x + y * y + z * z,
{
    let wx: u128 = x as u128;
    let wy: u128 = y as u128;
    let wz: u128 = z as u128;
    assert(wx * wx <= 0x4000_0000_0000_0000_0000_0000_0000_0000u128) by (nonlinear_arith)
        requires
            wx <= 0x8000_0000_0000_0000u128,
    ;
    assert(wy * wy <= 0x4000_0000_0000_0000_0000_0000_0000_0000u128) by (nonlinear_arith)
        requires
            wy <= 0x8000_0000_0000_0000u128,
    ;
    assert(wz * wz <= 0x4000_0000_0000_0000_0000_0000_0000_0000u128) by (nonlinear_arith)
        requires
            wz <= 0x8000_0000_0000_0000u128,
    ;
    wx * wx + wy * wy + wz * wz
}

/// Classifies an octant against the ball of the given radius around the origin.
pub fn classify_sphere(radius: i64, inner: Vec3, outer: Vec3) -> (state: OctantFillState)
    ensures
        state == sphere_fill_state(radius as int, inner@, outer@),
{
    if radius <= 0 {
        return OctantFillState::Empty;
    }
    let ix = magnitude_of(inner.x);
    let iy = magnitude_of(inner.y);
    let iz = magnitude_of(inner.z);
    let ox = magnitude_of(outer.x);
    let oy = magnitude_of(outer.y);
    let oz = magnitude_of(outer.z);
    let near = norm_squared_of(
        if ix <= ox { ix } else { ox },
        if iy <= oy { iy } else { oy },
        if iz <= oz { iz } else { oz },
    );
    let far = norm_squared_of(
        if ix >= ox { ix } else { ox },
        if iy >= oy { iy } else { oy },
        if iz >= oz { iz } else { oz },
    );
    let r: u128 = radius as u128;
    assert(r * r <= 0x4000_0000_0000_0000_0000_0000_0000_0000u128) by (nonlinear_arith)
        requires
            r <= 0x8000_0000_0000_0000u128,
    ;
    let limit: u128 = r * r;
    if near < limit {
        if far < limit {
            OctantFillState::Full
        } else {
            OctantFillState::ContainsVoxel
        }
    } else {
        OctantFillState::Empty
    }
}

/// A ball without radius fills no octant.
pub proof fn lemma_empty_sphere(radius: int, inner: Point, outer: Point)
    requires
        radius <= 0,
    ensures
        sphere_fill_state(radius, inner, outer) == OctantFillState::Empty,
{
}

} // verus!

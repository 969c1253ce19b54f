//! How a box of the lattice splits into its eight octants.
//!
//! A box is given by its centre and its per-axis half extent. Octant `k`
//! (0 to 7) lies on the side of the centre that `octant_sign(k)` names: bit 2
//! of `k` chooses the side along x, bit 1 along y, bit 0 along z.

use vstd::prelude::*;
use crate::lattice::{Point, Vec3};

verus! {

/// The corner direction of octant `k`: each component is -1 or 1.
pub open spec fn octant_sign(k: int) -> Point {
    Point { x: 2 * (k / 4) - 1, y: 2 * ((k / 2) % 2) - 1, z: 2 * (k % 2) - 1 }
}

/// Whether both extreme corners of the box can be held in a `Vec3`, and with
/// them every point of the box.
pub open spec fn in_bounds(center: Point, half_size: Point) -> bool {
    center.plus(half_size).fits() && center.plus(half_size.negated()).fits()
}

/// The half extent of each octant of a box: half of the box's own.
pub open spec fn child_half_size(half_size: Point) -> Point {
    half_size.halved()
}

/// The centre of octant `k`: the box's centre moved by half of the box's
/// signed half extent.
pub open spec fn child_center(center: Point, half_size: Point, k: int) -> Point {
    center.plus(half_size.times(octant_sign(k)).halved())
}

/// The corner of octant `k` that is nearest to the centre of the box.
pub open spec fn inner_corner(center: Point, half_size: Point, k: int) -> Point {
    child_center(center, half_size, k).plus(
        child_half_size(half_size).times(octant_sign(k).negated()),
    )
}

/// The corner of octant `k` that is farthest from the centre of the box.
pub open spec fn outer_corner(center: Point, half_size: Point, k: int) -> Point {
    child_center(center, half_size, k).plus(child_half_size(half_size).times(octant_sign(k)))
}

/// One octant of a box, as it is handed to a classifier and stored in a child.
#[derive(Clone, Copy, PartialEq, Eq, Structural, Debug)]
pub struct ChildCell {
    pub center: Vec3,
    pub half_size: Vec3,
    pub inner_corner: Vec3,
    pub outer_corner: Vec3,
}

/// Octant `k` of the box with the given centre and half extent.
pub open spec fn octant_cell(center: Vec3, half_size: Vec3, k: int) -> ChildCell {
    ChildCell {
        center: child_center(center@, half_size@, k).to_vec3(),
        half_size: child_half_size(half_size@).to_vec3(),
        inner_corner: inner_corner(center@, half_size@, k).to_vec3(),
        outer_corner: outer_corner(center@, half_size@, k).to_vec3(),
    }
}

/// An octant of a box in bounds is in bounds, its centre is the box's centre
/// moved by the signed child half extent, and its inner corner is the box's
/// centre.
pub proof fn lemma_octant_in_bounds(center: Point, half_size: Point, k: int)
    requires
        in_bounds(center, half_size),
        0 <= k < 8,
    ensures
        child_center(center, half_size, k) == center.plus(
            child_half_size(half_size).times(octant_sign(k)),
        ),
        inner_corner(center, half_size, k) == center,
        child_center(center, half_size, k).fits(),
        child_half_size(half_size).fits(),
        outer_corner(center, half_size, k).fits(),
        in_bounds(child_center(center, half_size, k), child_half_size(half_size)),
{
    let s = octant_sign(k);
    let h = half_size.halved();
    lemma_unit_product(half_size.x, s.x);
    lemma_unit_product(half_size.y, s.y);
    lemma_unit_product(half_size.z, s.z);
    lemma_unit_product(h.x, s.x);
    lemma_unit_product(h.y, s.y);
    lemma_unit_product(h.z, s.z);
    lemma_unit_product(h.x, -s.x);
    lemma_unit_product(h.y, -s.y);
    lemma_unit_product(h.z, -s.z);
}

/// A product with 1 or -1 is the other factor or its negation.
pub proof fn lemma_unit_product(a: int, s: int)
    requires
        s == 1 || s == -1,
    ensures
        a * s == (if s == 1 { a } else { -a }),
{
    assert(a * 1 == a && a * (-1) == -a) by (nonlinear_arith);
}

/// Whether `a + b` and `a - b` can both be held in an `i64`.
fn axis_in_bounds(a: i64, b: i64) -> (fits: bool)
    ensures
        fits == (crate::lattice::fits_i64(a + b) && crate::lattice::fits_i64(a - b)),
{
    a.checked_add(b).is_some() && a.checked_sub(b).is_some()
}

/// Tests whether a box is in bounds.
pub fn box_in_bounds(center: Vec3, half_size: Vec3) -> (fits: bool)
    ensures
        fits == in_bounds(center@, half_size@),
{
    axis_in_bounds(center.x, half_size.x) && axis_in_bounds(center.y, half_size.y)
        && axis_in_bounds(center.z, half_size.z)
}

/// `q` or its negation.
fn signed(q: i64, positive: bool) -> (r: i64)
    requires
        q > i64::MIN,
    ensures
        r == q * (if positive { 1int } else { -1int }),
{
    proof {
        lemma_unit_product(q as int, if positive { 1int } else { -1int });
    }
    if positive {
        q
    } else {
        -q
    }
}

/// The corner direction of octant `k`.
pub fn octant_sign_of(k: usize) -> (sign: Vec3)
    requires
        k < 8,
    ensures
        sign@ == octant_sign(k as int),
{
    let x: i64 = if k / 4 == 1 { 1 } else { -1 };
    let y: i64 = if (k / 2) % 2 == 1 { 1 } else { -1 };
    let z: i64 = if k % 2 == 1 { 1 } else { -1 };
    Vec3 { x, y, z }
}

/// Computes octant `k` of a box: its centre, its half extent and its two
/// extreme corners.
pub fn child_cell(center: Vec3, half_size: Vec3, k: usize) -> (cell: ChildCell)
    requires
        in_bounds(center@, half_size@),
        k < 8,
    ensures
        cell == octant_cell(center, half_size, k as int),
        cell.center@ == child_center(center@, half_size@, k as int),
        cell.half_size@ == child_half_size(half_size@),
        cell.inner_corner@ == inner_corner(center@, half_size@, k as int),
        cell.outer_corner@ == outer_corner(center@, half_size@, k as int),
        in_bounds(cell.center@, cell.half_size@),
{
    proof {
        lemma_octant_in_bounds(center@, half_size@, k as int);
    }
    let sign = octant_sign_of(k);
    let half = half_size.halved();
    let off_x = signed(half.x, sign.x == 1);
    let off_y = signed(half.y, sign.y == 1);
    let off_z = signed(half.z, sign.z == 1);
    let child = Vec3 { x: center.x + off_x, y: center.y + off_y, z: center.z + off_z };
    let inner = Vec3 { x: child.x - off_x, y: child.y - off_y, z: child.z - off_z };
    let outer = Vec3 { x: child.x + off_x, y: child.y + off_y, z: child.z + off_z };
    ChildCell { center: child, half_size: half, inner_corner: inner, outer_corner: outer }
}

} // verus!

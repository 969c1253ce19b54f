//! Lattice vectors: the executable `Vec3` and its unbounded model `Point`.

use vstd::prelude::*;

verus! {

/// A point or an extent of the lattice with unbounded components.
/// This is what a `Vec3` stands for in contracts.
pub struct Point {
    pub x: int,
    pub y: int,
    pub z: int,
}

/// Half of `a`, rounded toward zero.
pub open spec fn half_toward_zero(a: int) -> int {
    if a >= 0 {
        a / 2
    } else {
        -((-a) / 2)
    }
}

/// Whether `a` can be held in an `i64`.
pub open spec fn fits_i64(a: int) -> bool {
    i64::MIN <= a <= i64::MAX
}

impl Point {
    /// Componentwise sum.
    pub open spec fn plus(self, other: Point) -> Point {
        Point { x: self.x + other.x, y: self.y + other.y, z: self.z + other.z }
    }

    /// Componentwise product.
    pub open spec fn times(self, other: Point) -> Point {
        Point { x: self.x * other.x, y: self.y * other.y, z: self.z * other.z }
    }

    /// Componentwise difference.
    pub open spec fn minus(self, other: Point) -> Point {
        Point { x: self.x - other.x, y: self.y - other.y, z: self.z - other.z }
    }

    /// The scalar product.
    pub open spec fn dot(self, other: Point) -> int {
        self.x * other.x + self.y * other.y + self.z * other.z
    }

    /// The vector product, by the right-hand rule.
    pub open spec fn cross(self, other: Point) -> Point {
        Point {
            x: self.y * other.z - self.z * other.y,
            y: self.z * other.x - self.x * other.z,
            z: self.x * other.y - self.y * other.x,
        }
    }

    /// Every component negated.
    pub open spec fn negated(self) -> Point {
        Point { x: -self.x, y: -self.y, z: -self.z }
    }

    /// Every component halved, rounding toward zero.
    pub open spec fn halved(self) -> Point {
        Point {
            x: half_toward_zero(self.x),
            y: half_toward_zero(self.y),
            z: half_toward_zero(self.z),
        }
    }

    /// The squared Euclidean length.
    pub open spec fn norm_squared(self) -> int {
        self.x * self.x + self.y * self.y + self.z * self.z
    }

    /// Whether every component can be held in an `i64`.
    pub open spec fn fits(self) -> bool {
        fits_i64(self.x) && fits_i64(self.y) && fits_i64(self.z)
    }

    /// The `Vec3` that holds this point. Meaningful where `self.fits()`.
    pub open spec fn to_vec3(self) -> Vec3 {
        Vec3 { x: self.x as i64, y: self.y as i64, z: self.z as i64 }
    }
}

/// A vector of three lattice coordinates.
#[derive(Clone, Copy, PartialEq, Eq, Structural, Debug)]
pub struct Vec3 {
    pub x: i64,
    pub y: i64,
    pub z: i64,
}

impl View for Vec3 {
    type V = Point;

    open spec fn view(&self) -> Point {
        Point { x: self.x as int, y: self.y as int, z: self.z as int }
    }
}

impl Vec3 {
    /// The vector with the given components.
    pub fn new(x: i64, y: i64, z: i64) -> (v: Vec3)
        ensures
            v.x == x,
            v.y == y,
            v.z == z,
    {
        Vec3 { x, y, z }
    }

    /// Every component halved, rounding toward zero.
    pub fn halved(self) -> (v: Vec3)
        ensures
            v@ == self@.halved(),
    {
        Vec3 { x: self.x / 2, y: self.y / 2, z: self.z / 2 }
    }
}

/// A point that fits is the view of exactly one vector: the one `to_vec3` names.
pub proof fn lemma_to_vec3_of_view(v: Vec3)
    ensures
        v@.fits(),
        v@.to_vec3() == v,
{
}

/// Going to a vector and back returns a point that fits.
pub proof fn lemma_view_of_to_vec3(p: Point)
    requires
        p.fits(),
    ensures
        p.to_vec3()@ == p,
{
}

} // verus!

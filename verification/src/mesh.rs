//! Exporting the leaves of a tree as an indexed triangle mesh.
//!
//! Every node with the leaf flag contributes one box of its own: eight
//! vertices, three coordinates each, and twelve triangles, three vertex ids
//! each. No vertex is shared between boxes. The nodes are visited depth first,
//! a node before its slots and the slots in order.

use vstd::prelude::*;
use crate::geometry::lemma_unit_product;
use crate::lattice::{Point, Vec3};
use crate::octree::{slots_leaf_count, Octant, VoxelOctree};

verus! {

/// The direction of corner `j` (0 to 7) of a box: each component is -1 or 1.
/// Corners 0 to 3 run around the face at low z, corners 4 to 7 around the
/// face at high z, both starting at low x and low y.
pub open spec fn corner_sign(j: int) -> Point {
    Point {
        x: if j == 1 || j == 2 || j == 5 || j == 6 { 1 } else { -1 },
        y: if j == 2 || j == 3 || j == 6 || j == 7 { 1 } else { -1 },
        z: if j >= 4 { 1 } else { -1 },
    }
}

/// Corner `j` of the box with the given centre and half extent.
pub open spec fn corner(center: Point, half_size: Point, j: int) -> Point {
    center.plus(half_size.times(corner_sign(j)))
}

/// The x, y or z coordinate of `p`, for `axis` 0, 1 or 2.
pub open spec fn coordinate(p: Point, axis: int) -> int {
    if axis == 0 {
        p.x
    } else if axis == 1 {
        p.y
    } else {
        p.z
    }
}

/// The 24 coordinates of the eight corners of a box, corner by corner.
pub open spec fn cube_positions(center: Vec3, half_size: Vec3) -> Seq<i64> {
    Seq::new(24, |i: int| coordinate(corner(center@, half_size@, i / 3), i % 3) as i64)
}

/// The three corner numbers of triangle `t` (0 to 11) of a box. Triangles
/// `2 * f` and `2 * f + 1` make up face `f`: the faces at low z, high z,
/// high x, low x, high y and low y, in this order.
pub open spec fn triangle(t: int) -> (int, int, int) {
    if t == 0 {
        (0, 1, 2)
    } else if t == 1 {
        (0, 2, 3)
    } else if t == 2 {
        (4, 7, 6)
    } else if t == 3 {
        (6, 5, 4)
    } else if t == 4 {
        (1, 5, 6)
    } else if t == 5 {
        (6, 2, 1)
    } else if t == 6 {
        (3, 7, 4)
    } else if t == 7 {
        (4, 0, 3)
    } else if t == 8 {
        (3, 2, 6)
    } else if t == 9 {
        (6, 7, 3)
    } else if t == 10 {
        (4, 5, 1)
    } else {
        (1, 0, 4)
    }
}

/// The corner number at place `i` (0 to 2) of triangle `t`.
pub open spec fn triangle_corner(t: int, i: int) -> int {
    if i == 0 {
        triangle(t).0
    } else if i == 1 {
        triangle(t).1
    } else {
        triangle(t).2
    }
}

/// The twelve triangles of a box as 36 corner numbers, triangle by triangle.
pub open spec fn cube_triangles() -> Seq<int> {
    Seq::new(36, |k: int| triangle_corner(k / 3, k % 3))
}

/// The id under which vertex number `n` of the mesh is written: its low 32
/// bits, which is `n` itself in a mesh of at most 2^32 vertices.
pub open spec fn vertex_id(n: int) -> u32 {
    (n % 0x1_0000_0000) as u32
}

/// A vertex number below 2^32 is written as it is.
pub proof fn lemma_vertex_id_exact(n: int)
    requires
        0 <= n < 0x1_0000_0000,
    ensures
        vertex_id(n) == n,
{
}

/// The 36 vertex ids of the triangles of a box whose corner 0 is vertex
/// number `first` of the mesh.
pub open spec fn cube_indices(first: int) -> Seq<u32> {
    Seq::new(36, |t: int| vertex_id(first + cube_triangles()[t]))
}

/// The coordinates that the leaves in the first `n` slots and below them
/// contribute.
pub open spec fn slots_positions(slots: Seq<Option<Box<Octant>>>, n: int) -> Seq<i64>
    decreases slots, n,
{
    if 0 < n <= slots.len() {
        slots_positions(slots, n - 1) + match slots[n - 1] {
            Some(child) => child.mesh_positions(),
            None => Seq::empty(),
        }
    } else {
        Seq::empty()
    }
}

/// The vertex ids that the leaves in the first `n` slots and below them
/// contribute, when `first` vertices precede them in the mesh.
pub open spec fn slots_indices(slots: Seq<Option<Box<Octant>>>, n: int, first: int) -> Seq<u32>
    decreases slots, n,
{
    if 0 < n <= slots.len() {
        slots_indices(slots, n - 1, first) + match slots[n - 1] {
            Some(child) => child.mesh_indices(first + 8 * slots_leaf_count(slots, n - 1)),
            None => Seq::empty(),
        }
    } else {
        Seq::empty()
    }
}

impl Octant {
    /// The coordinates that this node and the nodes below it contribute.
    pub open spec fn mesh_positions(self) -> Seq<i64>
        decreases self,
    {
        (if self.is_leaf() {
            cube_positions(self.center, self.half_size)
        } else {
            Seq::empty()
        }) + slots_positions(self.children@, self.children@.len() as int)
    }

    /// The vertex ids that this node and the nodes below it contribute, when
    /// `first` vertices precede them in the mesh.
    pub open spec fn mesh_indices(self, first: int) -> Seq<u32>
        decreases self,
    {
        (if self.is_leaf() {
            cube_indices(first)
        } else {
            Seq::empty()
        }) + slots_indices(
            self.children@,
            self.children@.len() as int,
            first + if self.is_leaf() { 8int } else { 0int },
        )
    }

    /// Whether the corners of every box that the export writes can be held
    /// in a `Vec3`: those of this node, if it has the leaf flag, and of each
    /// such node below it.
    pub open spec fn exportable(self) -> bool
        decreases self,
    {
        &&& self.is_leaf() ==> self.in_bounds()
        &&& forall|k: int|
            0 <= k < self.children.len() ==> match #[trigger] self.children[k] {
                Some(child) => child.exportable(),
                None => true,
            }
    }
}

/// A mesh holds 24 coordinates and 36 vertex ids for each node with the leaf
/// flag: eight vertices and twelve triangles.
pub proof fn lemma_mesh_size(node: Octant, first: int)
    ensures
        node.mesh_positions().len() == 24 * node.leaf_count(),
        node.mesh_indices(first).len() == 36 * node.leaf_count(),
    decreases node, 0int,
{
    lemma_slots_mesh_size(
        node.children@,
        node.children@.len() as int,
        first + if node.is_leaf() { 8int } else { 0int },
    );
}

/// The same count over the first `n` slots of a node.
pub proof fn lemma_slots_mesh_size(slots: Seq<Option<Box<Octant>>>, n: int, first: int)
    requires
        0 <= n <= slots.len(),
    ensures
        slots_positions(slots, n).len() == 24 * slots_leaf_count(slots, n),
        slots_indices(slots, n, first).len() == 36 * slots_leaf_count(slots, n),
    decreases slots, n,
{
    if n > 0 {
        lemma_slots_mesh_size(slots, n - 1, first);
        match slots[n - 1] {
            Some(child) => {
                lemma_mesh_size(*child, first + 8 * slots_leaf_count(slots, n - 1));
            },
            None => {},
        }
    }
}

/// The outward direction of face `f` (0 to 5) of a box: low z, high z,
/// high x, low x, high y, low y.
pub open spec fn face_normal(f: int) -> Point {
    if f == 0 {
        Point { x: 0, y: 0, z: -1 }
    } else if f == 1 {
        Point { x: 0, y: 0, z: 1 }
    } else if f == 2 {
        Point { x: 1, y: 0, z: 0 }
    } else if f == 3 {
        Point { x: -1, y: 0, z: 0 }
    } else if f == 4 {
        Point { x: 0, y: 1, z: 0 }
    } else {
        Point { x: 0, y: -1, z: 0 }
    }
}

/// Triangles `2 * f` and `2 * f + 1` lie in face `f` of the box, and every
/// triangle winds the same way: seen from outside a box of positive extent
/// its corners run clockwise, so that its right-hand normal points into the
/// box.
pub proof fn lemma_triangle_winding(center: Point, half_size: Point, t: int)
    requires
        0 <= t < 12,
        half_size.x > 0,
        half_size.y > 0,
        half_size.z > 0,
    ensures
        forall|i: int|
            0 <= i < 3 ==> 0 <= #[trigger] triangle_corner(t, i) < 8 && corner_sign(
                triangle_corner(t, i),
            ).dot(face_normal(t / 2)) == 1,
        ({
            let a = corner(center, half_size, triangle_corner(t, 0));
            let b = corner(center, half_size, triangle_corner(t, 1));
            let c = corner(center, half_size, triangle_corner(t, 2));
            b.minus(a).cross(c.minus(a)).dot(face_normal(t / 2)) < 0
        }),
{
    let hx = half_size.x;
    let hy = half_size.y;
    let hz = half_size.z;
    assert(hx * hy > 0 && hy * hz > 0 && hx * hz > 0) by (nonlinear_arith)
        requires
            hx > 0,
            hy > 0,
            hz > 0,
    ;
    let a = corner(center, half_size, triangle_corner(t, 0));
    let b = corner(center, half_size, triangle_corner(t, 1));
    let c = corner(center, half_size, triangle_corner(t, 2));
    let u = b.minus(a);
    let v = c.minus(a);
    let n = u.cross(v);
    lemma_unit_product(hx, 1);
    lemma_unit_product(hx, -1);
    lemma_unit_product(hy, 1);
    lemma_unit_product(hy, -1);
    lemma_unit_product(hz, 1);
    lemma_unit_product(hz, -1);
    assert(u.x == 0 || u.x == 2 * hx || u.x == -2 * hx);
    assert(u.y == 0 || u.y == 2 * hy || u.y == -2 * hy);
    assert(u.z == 0 || u.z == 2 * hz || u.z == -2 * hz);
    assert(v.x == 0 || v.x == 2 * hx || v.x == -2 * hx);
    assert(v.y == 0 || v.y == 2 * hy || v.y == -2 * hy);
    assert(v.z == 0 || v.z == 2 * hz || v.z == -2 * hz);
    lemma_scaled_product(u.x, v.y, hx, hy);
    lemma_scaled_product(u.y, v.x, hy, hx);
    lemma_scaled_product(u.y, v.z, hy, hz);
    lemma_scaled_product(u.z, v.y, hz, hy);
    lemma_scaled_product(u.z, v.x, hz, hx);
    lemma_scaled_product(u.x, v.z, hx, hz);
    assert(hy * hx == hx * hy && hz * hy == hy * hz && hz * hx == hx * hz) by (nonlinear_arith);
    assert(n.dot(face_normal(t / 2)) == n.x * face_normal(t / 2).x + n.y * face_normal(t / 2).y
        + n.z * face_normal(t / 2).z);
    if t / 2 == 0 {
        lemma_unit_product(n.z, -1);
    } else if t / 2 == 1 {
        lemma_unit_product(n.z, 1);
    } else if t / 2 == 2 {
        lemma_unit_product(n.x, 1);
    } else if t / 2 == 3 {
        lemma_unit_product(n.x, -1);
    } else if t / 2 == 4 {
        lemma_unit_product(n.y, 1);
    } else {
        lemma_unit_product(n.y, -1);
    }
    assert(n.x * 0 == 0 && n.y * 0 == 0 && n.z * 0 == 0) by (nonlinear_arith);
}

/// The two triangles of a face name all four corners of that face.
pub proof fn lemma_face_is_covered(f: int, j: int)
    requires
        0 <= f < 6,
        0 <= j < 8,
        corner_sign(j).dot(face_normal(f)) == 1,
    ensures
        exists|t: int, i: int|
            2 * f <= t <= 2 * f + 1 && 0 <= i < 3 && #[trigger] triangle_corner(t, i) == j,
{
    let t0 = 2 * f;
    let t1 = 2 * f + 1;
    assert(triangle_corner(t0, 0) == j || triangle_corner(t0, 1) == j || triangle_corner(t0, 2)
        == j || triangle_corner(t1, 0) == j || triangle_corner(t1, 1) == j || triangle_corner(
        t1,
        2,
    ) == j);
}

/// The product of two differences between corners of a box: each factor is
/// zero or twice a half extent, with either sign.
proof fn lemma_scaled_product(p: int, q: int, a: int, b: int)
    requires
        p == 0 || p == 2 * a || p == -2 * a,
        q == 0 || q == 2 * b || q == -2 * b,
    ensures
        p * q == (if p == 0 || q == 0 {
            0
        } else if (p == 2 * a) == (q == 2 * b) {
            4 * (a * b)
        } else {
            -4 * (a * b)
        }),
{
    assert(0 * q == 0 && p * 0 == 0) by (nonlinear_arith);
    assert((2 * a) * (2 * b) == 4 * (a * b)) by (nonlinear_arith);
    assert((-2 * a) * (2 * b) == -4 * (a * b)) by (nonlinear_arith);
    assert((2 * a) * (-2 * b) == -4 * (a * b)) by (nonlinear_arith);
    assert((-2 * a) * (-2 * b) == 4 * (a * b)) by (nonlinear_arith);
}

/// The nodes with the leaf flag in the first `n` slots and below them, in the
/// order in which the export visits them.
pub open spec fn slots_leaves(slots: Seq<Option<Box<Octant>>>, n: int) -> Seq<Octant>
    decreases slots, n,
{
    if 0 < n <= slots.len() {
        slots_leaves(slots, n - 1) + match slots[n - 1] {
            Some(child) => child.leaves(),
            None => Seq::empty(),
        }
    } else {
        Seq::empty()
    }
}

impl Octant {
    /// The nodes with the leaf flag among this node and those below it, in
    /// the order in which the export visits them: a node before its slots,
    /// the slots in order.
    pub open spec fn leaves(self) -> Seq<Octant>
        decreases self,
    {
        (if self.is_leaf() {
            seq![self]
        } else {
            Seq::empty()
        }) + slots_leaves(self.children@, self.children@.len() as int)
    }
}

/// There are as many leaves as `leaf_count` says.
pub proof fn lemma_leaves_len(node: Octant)
    ensures
        node.leaves().len() == node.leaf_count(),
    decreases node, 0int,
{
    lemma_slots_leaves_len(node.children@, node.children@.len() as int);
}

/// The same over the first `n` slots of a node.
pub proof fn lemma_slots_leaves_len(slots: Seq<Option<Box<Octant>>>, n: int)
    requires
        0 <= n <= slots.len(),
    ensures
        slots_leaves(slots, n).len() == slots_leaf_count(slots, n),
    decreases slots, n,
{
    if n > 0 {
        lemma_slots_leaves_len(slots, n - 1);
        match slots[n - 1] {
            Some(child) => {
                lemma_leaves_len(*child);
            },
            None => {},
        }
    }
}

/// Leaf number `j` of the export owns vertices `8 * j` to `8 * j + 7` of the
/// mesh: its box fills places `24 * j` to `24 * j + 23` of the coordinates,
/// and its triangles, which name those eight vertices and no others, fill
/// places `36 * j` to `36 * j + 35` of the vertex ids.
pub proof fn lemma_mesh_of_leaf(node: Octant, first: int, j: int)
    requires
        0 <= j < node.leaf_count(),
    ensures
        node.leaves().len() == node.leaf_count(),
        node.mesh_positions().len() == 24 * node.leaf_count(),
        node.mesh_indices(first).len() == 36 * node.leaf_count(),
        node.mesh_positions().subrange(24 * j, 24 * j + 24) == cube_positions(
            node.leaves()[j].center,
            node.leaves()[j].half_size,
        ),
        node.mesh_indices(first).subrange(36 * j, 36 * j + 36) == cube_indices(first + 8 * j),
    decreases node, 0int,
{
    let n = node.children@.len() as int;
    let own = if node.is_leaf() { 1int } else { 0int };
    let below = slots_positions(node.children@, n);
    let below_ids = slots_indices(node.children@, n, first + 8 * own);
    lemma_leaves_len(node);
    lemma_mesh_size(node, first);
    lemma_slots_mesh_size(node.children@, n, first + 8 * own);
    lemma_slots_leaves_len(node.children@, n);
    if node.is_leaf() && j == 0 {
        assert(node.mesh_positions().subrange(0, 24) =~= cube_positions(
            node.center,
            node.half_size,
        ));
        assert(node.mesh_indices(first).subrange(0, 36) =~= cube_indices(first));
    } else {
        let i = j - own;
        lemma_slots_mesh_of_leaf(node.children@, n, first + 8 * own, i);
        assert(node.mesh_positions().subrange(24 * j, 24 * j + 24) =~= below.subrange(
            24 * i,
            24 * i + 24,
        ));
        assert(node.mesh_indices(first).subrange(36 * j, 36 * j + 36) =~= below_ids.subrange(
            36 * i,
            36 * i + 36,
        ));
    }
}

/// The same over the first `n` slots of a node.
pub proof fn lemma_slots_mesh_of_leaf(
    slots: Seq<Option<Box<Octant>>>,
    n: int,
    first: int,
    j: int,
)
    requires
        0 <= n <= slots.len(),
        0 <= j < slots_leaf_count(slots, n),
    ensures
        slots_leaves(slots, n).len() == slots_leaf_count(slots, n),
        slots_positions(slots, n).subrange(24 * j, 24 * j + 24) == cube_positions(
            slots_leaves(slots, n)[j].center,
            slots_leaves(slots, n)[j].half_size,
        ),
        slots_indices(slots, n, first).subrange(36 * j, 36 * j + 36) == cube_indices(
            first + 8 * j,
        ),
    decreases slots, n,
{
    lemma_slots_leaves_len(slots, n);
    lemma_slots_leaves_len(slots, n - 1);
    lemma_slots_mesh_size(slots, n - 1, first);
    let before = slots_leaf_count(slots, n - 1) as int;
    if j < before {
        lemma_slots_mesh_of_leaf(slots, n - 1, first, j);
        assert(slots_positions(slots, n).subrange(24 * j, 24 * j + 24) =~= slots_positions(
            slots,
            n - 1,
        ).subrange(24 * j, 24 * j + 24));
        assert(slots_indices(slots, n, first).subrange(36 * j, 36 * j + 36) =~= slots_indices(
            slots,
            n - 1,
            first,
        ).subrange(36 * j, 36 * j + 36));
    } else {
        let child = *slots[n - 1]->0;
        let i = j - before;
        lemma_mesh_of_leaf(child, first + 8 * before, i);
        assert(slots_positions(slots, n).subrange(24 * j, 24 * j + 24)
            =~= child.mesh_positions().subrange(24 * i, 24 * i + 24));
        assert(slots_indices(slots, n, first).subrange(36 * j, 36 * j + 36) =~= child.mesh_indices(
            first + 8 * before,
        ).subrange(36 * i, 36 * i + 36));
    }
}

/// The id of vertex number `n`.
fn vertex_id_of(n: usize) -> (id: u32)
    ensures
        id == vertex_id(n as int),
{
    let id: u32 = #[verifier::truncate] (n as u32);
    assert(id == (n as int % 0x1_0000_0000) as u32) by (bit_vector)
        requires
            id == n as u32,
    ;
    id
}

/// Extending the first `j` corners of a box by corner `j` gives the first
/// `j + 1` corners.
proof fn lemma_next_corner(base: Seq<i64>, center: Vec3, half_size: Vec3, j: int, v: Vec3)
    requires
        0 <= j < 8,
        v@ == corner(center@, half_size@, j),
    ensures
        (base + cube_positions(center, half_size).subrange(0, 3 * j)).push(v.x).push(v.y).push(v.z)
            == base + cube_positions(center, half_size).subrange(0, 3 * j + 3),
{
    let all = cube_positions(center, half_size);
    assert(all[3 * j] == v.x);
    assert(all[3 * j + 1] == v.y);
    assert(all[3 * j + 2] == v.z);
    assert((base + all.subrange(0, 3 * j)).push(v.x).push(v.y).push(v.z) =~= base + all.subrange(
        0,
        3 * j + 3,
    ));
}

/// Extending the first `t` triangles of a box by triangle `t` gives the first
/// `t + 1` triangles.
proof fn lemma_next_triangle(base: Seq<u32>, first: int, t: int, a: int, b: int, c: int)
    requires
        0 <= t < 12,
        triangle(t) == (a, b, c),
    ensures
        (base + cube_indices(first).subrange(0, 3 * t)).push(vertex_id(first + a)).push(
            vertex_id(first + b),
        ).push(vertex_id(first + c)) == base + cube_indices(first).subrange(0, 3 * t + 3),
{
    let all = cube_indices(first);
    assert(all[3 * t] == vertex_id(first + a));
    assert(all[3 * t + 1] == vertex_id(first + b));
    assert(all[3 * t + 2] == vertex_id(first + c));
    assert((base + all.subrange(0, 3 * t)).push(vertex_id(first + a)).push(
        vertex_id(first + b),
    ).push(vertex_id(first + c)) =~= base + all.subrange(0, 3 * t + 3));
}

/// Appends corner `j` of the box with the given centre and half extent.
fn push_vertex(
    positions: &mut Vec<i64>,
    v: Vec3,
    Ghost(base): Ghost<Seq<i64>>,
    Ghost(center): Ghost<Vec3>,
    Ghost(half_size): Ghost<Vec3>,
    Ghost(j): Ghost<int>,
)
    requires
        0 <= j < 8,
        v@ == corner(center@, half_size@, j),
        old(positions)@ == base + cube_positions(center, half_size).subrange(0, 3 * j),
    ensures
        final(positions)@ == base + cube_positions(center, half_size).subrange(0, 3 * j + 3),
{
    proof {
        lemma_next_corner(base, center, half_size, j, v);
    }
    positions.push(v.x);
    positions.push(v.y);
    positions.push(v.z);
}

/// Appends triangle `t` of a box whose corner 0 is vertex number `first`: the
/// ids of its corners `a`, `b` and `c`.
fn push_triangle(
    indices: &mut Vec<u32>,
    first: usize,
    a: usize,
    b: usize,
    c: usize,
    Ghost(base): Ghost<Seq<u32>>,
    Ghost(t): Ghost<int>,
)
    requires
        first <= usize::MAX - 7,
        0 <= t < 12,
        triangle(t) == (a as int, b as int, c as int),
        old(indices)@ == base + cube_indices(first as int).subrange(0, 3 * t),
    ensures
        final(indices)@ == base + cube_indices(first as int).subrange(0, 3 * t + 3),
{
    proof {
        lemma_next_triangle(base, first as int, t, a as int, b as int, c as int);
    }
    indices.push(vertex_id_of(first + a));
    indices.push(vertex_id_of(first + b));
    indices.push(vertex_id_of(first + c));
}

/// Appends the eight corners of the box of `octant`.
fn push_corners(octant: &Octant, positions: &mut Vec<i64>)
    requires
        octant.in_bounds(),
    ensures
        final(positions)@ == old(positions)@ + cube_positions(octant.center, octant.half_size),
{
    let c = octant.center;
    let h = octant.half_size;
    let ghost base = positions@;
    proof {
        lemma_unit_product(h.x as int, 1);
        lemma_unit_product(h.x as int, -1);
        lemma_unit_product(h.y as int, 1);
        lemma_unit_product(h.y as int, -1);
        lemma_unit_product(h.z as int, 1);
        lemma_unit_product(h.z as int, -1);
        assert(positions@ =~= base + cube_positions(c, h).subrange(0, 0));
    }
    let v1 = Vec3 { x: c.x - h.x, y: c.y - h.y, z: c.z - h.z };
    let v2 = Vec3 { x: c.x + h.x, y: c.y - h.y, z: c.z - h.z };
    let v3 = Vec3 { x: c.x + h.x, y: c.y + h.y, z: c.z - h.z };
    let v4 = Vec3 { x: c.x - h.x, y: c.y + h.y, z: c.z - h.z };
    let v5 = Vec3 { x: c.x - h.x, y: c.y - h.y, z: c.z + h.z };
    let v6 = Vec3 { x: c.x + h.x, y: c.y - h.y, z: c.z + h.z };
    let v7 = Vec3 { x: c.x + h.x, y: c.y + h.y, z: c.z + h.z };
    let v8 = Vec3 { x: c.x - h.x, y: c.y + h.y, z: c.z + h.z };
    push_vertex(positions, v1, Ghost(base), Ghost(c), Ghost(h), Ghost(0));
    push_vertex(positions, v2, Ghost(base), Ghost(c), Ghost(h), Ghost(1));
    push_vertex(positions, v3, Ghost(base), Ghost(c), Ghost(h), Ghost(2));
    push_vertex(positions, v4, Ghost(base), Ghost(c), Ghost(h), Ghost(3));
    push_vertex(positions, v5, Ghost(base), Ghost(c), Ghost(h), Ghost(4));
    push_vertex(positions, v6, Ghost(base), Ghost(c), Ghost(h), Ghost(5));
    push_vertex(positions, v7, Ghost(base), Ghost(c), Ghost(h), Ghost(6));
    push_vertex(positions, v8, Ghost(base), Ghost(c), Ghost(h), Ghost(7));
    proof {
        assert(cube_positions(c, h).subrange(0, 24) =~= cube_positions(c, h));
    }
}

/// Appends the twelve triangles of a box whose corner 0 is vertex number
/// `first`.
fn push_triangles(indices: &mut Vec<u32>, first: usize)
    requires
        first <= usize::MAX - 7,
    ensures
        final(indices)@ == old(indices)@ + cube_indices(first as int),
{
    let ghost base = indices@;
    proof {
        assert(indices@ =~= base + cube_indices(first as int).subrange(0, 0));
    }
    // low z
    push_triangle(indices, first, 0, 1, 2, Ghost(base), Ghost(0));
    push_triangle(indices, first, 0, 2, 3, Ghost(base), Ghost(1));
    // high z
    push_triangle(indices, first, 4, 7, 6, Ghost(base), Ghost(2));
    push_triangle(indices, first, 6, 5, 4, Ghost(base), Ghost(3));
    // high x
    push_triangle(indices, first, 1, 5, 6, Ghost(base), Ghost(4));
    push_triangle(indices, first, 6, 2, 1, Ghost(base), Ghost(5));
    // low x
    push_triangle(indices, first, 3, 7, 4, Ghost(base), Ghost(6));
    push_triangle(indices, first, 4, 0, 3, Ghost(base), Ghost(7));
    // high y
    push_triangle(indices, first, 3, 2, 6, Ghost(base), Ghost(8));
    push_triangle(indices, first, 6, 7, 3, Ghost(base), Ghost(9));
    // low y
    push_triangle(indices, first, 4, 5, 1, Ghost(base), Ghost(10));
    push_triangle(indices, first, 1, 0, 4, Ghost(base), Ghost(11));
    proof {
        assert(cube_indices(first as int).subrange(0, 36) =~= cube_indices(first as int));
    }
}

/// Appends the box of `octant` to the mesh: its eight corners to `positions`
/// and its twelve triangles to `indices`, numbered after the vertices that
/// `positions` already holds.
fn add_octant_cube(octant: &Octant, indices: &mut Vec<u32>, positions: &mut Vec<i64>)
    requires
        octant.in_bounds(),
    ensures
        final(positions)@ == old(positions)@ + cube_positions(octant.center, octant.half_size),
        final(indices)@ == old(indices)@ + cube_indices(old(positions)@.len() as int / 3),
{
    let first: usize = positions.len() / 3;
    push_corners(octant, positions);
    push_triangles(indices, first);
}

/// Appends the boxes of `octant` and of the nodes below it, depth first.
fn export_octant_walk(octant: &Octant, indices: &mut Vec<u32>, positions: &mut Vec<i64>)
    requires
        octant.exportable(),
    ensures
        final(positions)@ == old(positions)@ + octant.mesh_positions(),
        final(indices)@ == old(indices)@ + octant.mesh_indices(old(positions)@.len() as int / 3),
    decreases octant,
{
    let ghost first = old(positions)@.len() as int / 3;
    let ghost below = first + if octant.is_leaf() { 8int } else { 0int };
    if octant.is_leaf() {
        add_octant_cube(octant, indices, positions);
    }
    let ghost own_positions = positions@;
    let ghost own_indices = indices@;
    let mut i: usize = 0;
    while i < octant.children.len()
        invariant
            i <= octant.children.len(),
            octant.exportable(),
            own_positions.len() == old(positions)@.len() + if octant.is_leaf() { 24int } else { 0int },
            positions@ == own_positions + slots_positions(octant.children@, i as int),
            indices@ == own_indices + slots_indices(octant.children@, i as int, below),
            below == old(positions)@.len() as int / 3 + if octant.is_leaf() { 8int } else { 0int },
        decreases octant.children.len() - i,
    {
        let ghost seen_positions = slots_positions(octant.children@, i as int);
        let ghost seen_indices = slots_indices(octant.children@, i as int, below);
        proof {
            lemma_slots_mesh_size(octant.children@, i as int, below);
        }
        match &octant.children[i] {
            Some(child) => {
                assert(octant.children[i as int] == Some(*child));
                export_octant_walk(child, indices, positions);
                proof {
                    assert(positions@ =~= own_positions + (seen_positions + child.mesh_positions()));
                    assert(indices@ =~= own_indices + (seen_indices + child.mesh_indices(
                        below + 8 * slots_leaf_count(octant.children@, i as int),
                    )));
                }
            },
            None => {
                proof {
                    assert(positions@ =~= own_positions + (seen_positions + Seq::<i64>::empty()));
                    assert(indices@ =~= own_indices + (seen_indices + Seq::<u32>::empty()));
                }
            },
        }
        i += 1;
    }
    proof {
        assert(positions@ =~= old(positions)@ + octant.mesh_positions());
        assert(indices@ =~= old(indices)@ + octant.mesh_indices(first));
    }
}

/// Tests whether the export can write every box at and below `octant`.
fn exportable_walk(octant: &Octant) -> (ok: bool)
    ensures
        ok == octant.exportable(),
    decreases octant,
{
    if octant.is_leaf() && !octant.is_in_bounds() {
        return false;
    }
    let mut i: usize = 0;
    while i < octant.children.len()
        invariant
            i <= octant.children.len(),
            octant.is_leaf() ==> octant.in_bounds(),
            forall|k: int|
                0 <= k < i ==> match #[trigger] octant.children[k] {
                    Some(child) => child.exportable(),
                    None => true,
                },
        decreases octant.children.len() - i,
    {
        match &octant.children[i] {
            Some(child) => {
                assert(octant.children[i as int] == Some(*child));
                if !exportable_walk(child) {
                    return false;
                }
            },
            None => {},
        }
        i += 1;
    }
    true
}

impl VoxelOctree {
    /// Tests whether `export_mesh` can write the tree: whether the corners of
    /// every node with the leaf flag can be held in a `Vec3`.
    pub fn is_exportable(&self) -> (ok: bool)
        ensures
            ok == self.root.exportable(),
    {
        exportable_walk(&self.root)
    }

    /// Builds the mesh of the tree: the vertex ids of its triangles, three
    /// per triangle, and the coordinates of its vertices, three per vertex.
    /// Vertex number `v` has its coordinates at `3 * v` and the two places
    /// after it, and is named by the id `v` wherever the mesh has at most 2^32
    /// vertices; beyond that the ids keep the low 32 bits of the number.
    pub fn export_mesh(&self) -> (mesh: (Vec<u32>, Vec<i64>))
        requires
            self.root.exportable(),
        ensures
            mesh.0@ == self.root.mesh_indices(0),
            mesh.1@ == self.root.mesh_positions(),
            mesh.0@.len() == 36 * self.root.leaf_count(),
            mesh.1@.len() == 24 * self.root.leaf_count(),
    {
        let mut indices: Vec<u32> = Vec::new();
        let mut positions: Vec<i64> = Vec::new();
        export_octant_walk(&self.root, &mut indices, &mut positions);
        proof {
            lemma_mesh_size(self.root, 0);
            assert(indices@ =~= self.root.mesh_indices(0));
            assert(positions@ =~= self.root.mesh_positions());
        }
        (indices, positions)
    }
}

} // verus!

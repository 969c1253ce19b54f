//! The node type and the tree that owns the root.

use vstd::prelude::*;
pub use crate::fill::OctantFillState;
use crate::geometry::{box_in_bounds, in_bounds};
use crate::lattice::{Point, Vec3};
use crate::packing::{
    color_of, leaf_flag, lemma_lanes_of_packed, lemma_with_leaf_flag, pack_leaf, packed,
    read_color, read_leaf_flag, with_leaf_flag, write_leaf_flag,
};

verus! {

/// One node of the tree: a box of the lattice.
pub struct Octant {
    /// The packed state word: lane 0 is the leaf flag, lanes 1 to 3 are the
    /// red, green and blue channels of a leaf.
    pub data: u32,
    /// The child slots, one per octant of the box, each absent or owning a
    /// child. Every constructor makes eight.
    pub children: Vec<Option<Box<Octant>>>,
    /// The midpoint of the box.
    pub center: Vec3,
    /// The half extent of the box along each axis.
    pub half_size: Vec3,
    /// The subdivision level: 0 for a root, one more for each step down.
    pub depth: u8,
}

/// What a node and the nodes below it hold, as a value: the model of an
/// `Octant` and of the tree under it.
pub struct Shape {
    pub data: u32,
    pub children: Seq<Option<Shape>>,
    pub center: Point,
    pub half_size: Point,
    pub depth: nat,
}

/// The models of the first `n` slots.
pub open spec fn slots_shapes(slots: Seq<Option<Box<Octant>>>, n: int) -> Seq<Option<Shape>>
    decreases slots, n,
{
    if 0 < n <= slots.len() {
        slots_shapes(slots, n - 1).push(
            match slots[n - 1] {
                Some(child) => Some(child.shape()),
                None => None,
            },
        )
    } else {
        Seq::empty()
    }
}

impl View for Octant {
    type V = Shape;

    open spec fn view(&self) -> Shape {
        self.shape()
    }
}

/// The model of a node has a slot for each slot of the node, absent where the
/// node's is absent and the model of the child where it is filled.
pub proof fn lemma_slots_shapes(slots: Seq<Option<Box<Octant>>>, n: int)
    requires
        0 <= n <= slots.len(),
    ensures
        slots_shapes(slots, n).len() == n,
        forall|k: int|
            0 <= k < n ==> #[trigger] slots_shapes(slots, n)[k] == match slots[k] {
                Some(child) => Some(child@),
                None => None::<Shape>,
            },
    decreases n,
{
    if n > 0 {
        lemma_slots_shapes(slots, n - 1);
    }
}

/// The number of nodes in the first `n` slots and below them.
pub open spec fn slots_node_count(slots: Seq<Option<Box<Octant>>>, n: int) -> nat
    decreases slots, n,
{
    if 0 < n <= slots.len() {
        slots_node_count(slots, n - 1) + match slots[n - 1] {
            Some(child) => 1 + child.descendant_count(),
            None => 0,
        }
    } else {
        0
    }
}

/// The number of nodes with the leaf flag in the first `n` slots and below them.
pub open spec fn slots_leaf_count(slots: Seq<Option<Box<Octant>>>, n: int) -> nat
    decreases slots, n,
{
    if 0 < n <= slots.len() {
        slots_leaf_count(slots, n - 1) + match slots[n - 1] {
            Some(child) => child.leaf_count(),
            None => 0,
        }
    } else {
        0
    }
}

impl Octant {
    /// The model of this node and of the tree below it.
    pub open spec fn shape(self) -> Shape
        decreases self,
    {
        Shape {
            data: self.data,
            children: slots_shapes(self.children@, self.children@.len() as int),
            center: self.center@,
            half_size: self.half_size@,
            depth: self.depth as nat,
        }
    }

    /// Whether the leaf flag is set.
    pub open spec fn spec_is_leaf(&self) -> bool {
        leaf_flag(self.data)
    }

    /// The three colour lanes.
    pub open spec fn spec_color(&self) -> (u8, u8, u8) {
        color_of(self.data)
    }

    /// Whether every child slot is absent.
    pub open spec fn childless(self) -> bool {
        forall|k: int| 0 <= k < self.children.len() ==> (#[trigger] self.children[k]) is None
    }

    /// The child in slot `k`, if the node has that slot and it is filled.
    pub open spec fn child(self, k: int) -> Option<Octant> {
        if 0 <= k < self.children.len() {
            match self.children[k] {
                Some(child) => Some(*child),
                None => None,
            }
        } else {
            None
        }
    }

    /// The node reached from this one by following the slots that `path`
    /// lists, if all of them are filled. The empty path reaches the node
    /// itself.
    pub open spec fn descendant(self, path: Seq<int>) -> Option<Octant>
        decreases path.len(),
    {
        if path.len() == 0 {
            Some(self)
        } else {
            match self.child(path[0]) {
                Some(child) => child.descendant(path.drop_first()),
                None => None,
            }
        }
    }

    /// The number of nodes below this one.
    pub open spec fn descendant_count(self) -> nat
        decreases self,
    {
        slots_node_count(self.children@, self.children@.len() as int)
    }

    /// The number of nodes with the leaf flag among this node and those below.
    pub open spec fn leaf_count(self) -> nat
        decreases self,
    {
        (if self.spec_is_leaf() { 1nat } else { 0nat }) + slots_leaf_count(
            self.children@,
            self.children@.len() as int,
        )
    }

    /// Whether the extreme corners of the box can be held in a `Vec3`.
    pub open spec fn in_bounds(self) -> bool {
        in_bounds(self.center@, self.half_size@)
    }

    /// Tests whether the extreme corners of the box can be held in a `Vec3`.
    pub fn is_in_bounds(&self) -> (fits: bool)
        ensures
            fits == self.in_bounds(),
    {
        box_in_bounds(self.center, self.half_size)
    }

    /// A leaf with the given box, depth and colour, and eight absent slots.
    pub fn leaf(center: Vec3, half_size: Vec3, depth: u8, r: u8, g: u8, b: u8) -> (node: Octant)
        ensures
            node.data == packed(1, r, g, b),
            node.spec_is_leaf(),
            node.spec_color() == (r, g, b),
            node.children.len() == 8,
            node.childless(),
            node.center == center,
            node.half_size == half_size,
            node.depth == depth,
    {
        proof {
            lemma_lanes_of_packed(1, r, g, b);
        }
        Octant {
            data: pack_leaf(r, g, b),
            children: vec![None, None, None, None, None, None, None, None],
            center,
            half_size,
            depth,
        }
    }

    /// An interior node with the given box and depth, a zero state word and
    /// eight absent slots.
    pub fn empty(center: Vec3, half_size: Vec3, depth: u8) -> (node: Octant)
        ensures
            node.data == 0,
            !node.spec_is_leaf(),
            node.children.len() == 8,
            node.childless(),
            node.center == center,
            node.half_size == half_size,
            node.depth == depth,
    {
        Octant {
            data: 0,
            children: vec![None, None, None, None, None, None, None, None],
            center,
            half_size,
            depth,
        }
    }

    /// Overwrites the leaf flag. The colour lanes, the children and the box
    /// stay as they are.
    pub fn set_leaf(&mut self, leaf: bool)
        ensures
            final(self).data == with_leaf_flag(old(self).data, leaf),
            final(self).spec_is_leaf() == leaf,
            final(self).spec_color() == old(self).spec_color(),
            final(self).children == old(self).children,
            final(self).center == old(self).center,
            final(self).half_size == old(self).half_size,
            final(self).depth == old(self).depth,
    {
        proof {
            lemma_with_leaf_flag(self.data, leaf);
        }
        self.data = write_leaf_flag(self.data, leaf);
    }

    /// Whether the leaf flag is set.
    #[verifier::when_used_as_spec(spec_is_leaf)]
    pub fn is_leaf(&self) -> (leaf: bool)
        ensures
            leaf == self.spec_is_leaf(),
    {
        read_leaf_flag(self.data)
    }

    /// The three colour lanes, whether or not the node is a leaf.
    #[verifier::when_used_as_spec(spec_color)]
    pub fn color(&self) -> (rgb: (u8, u8, u8))
        ensures
            rgb == self.spec_color(),
    {
        read_color(self.data)
    }
}

/// A sparse voxel octree: the root and, through it, every node.
pub struct VoxelOctree {
    pub root: Octant,
}

impl View for VoxelOctree {
    type V = Shape;

    open spec fn view(&self) -> Shape {
        self.root@
    }
}

impl VoxelOctree {
    /// The tree with a single childless interior root at depth 0 that spans
    /// the box around `center` with the full extent `size`.
    pub fn empty(center: Vec3, size: Vec3) -> (tree: VoxelOctree)
        ensures
            tree.root.center == center,
            tree.root.half_size@ == size@.halved(),
            tree.root.depth == 0,
            tree.root.data == 0,
            !tree.root.is_leaf(),
            tree.root.children.len() == 8,
            tree.root.childless(),
    {
        VoxelOctree { root: Octant::empty(center, size.halved(), 0) }
    }
}

} // verus!

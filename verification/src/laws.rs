//! What holds of every grown tree.
//!
//! Each law speaks of a node `root` that is grown to `max_depth` under some
//! answers, which is what `VoxelOctree::generate` leaves behind, and of the
//! node that a path of slot numbers reaches from it.

use vstd::prelude::*;
use crate::fill::{plan_for, OctantFillState};
use crate::generate::{
    answers, lemma_node_count_of_absent, placed, slot_follows, slot_grown, SOLID_BLUE,
    SOLID_GREEN, SOLID_RED,
};
use crate::geometry::{child_center, lemma_octant_in_bounds, octant_cell, octant_sign};
use crate::lattice::Vec3;
use crate::octree::{lemma_slots_shapes, slots_leaf_count, slots_node_count, Octant};
use crate::packing::{lemma_lanes_of_packed, packed};

verus! {

/// What subdivision creates: a childless leaf of the solid colour, or an
/// interior node less deep than the limit, with a zero state word, that is
/// grown in turn.
pub open spec fn produced(
    node: Octant,
    max_depth: u8,
    outcomes: spec_fn(Vec3, Vec3, Vec3, OctantFillState) -> bool,
) -> bool {
    ||| {
        &&& node.data == packed(1, SOLID_RED, SOLID_GREEN, SOLID_BLUE)
        &&& node.children.len() == 8
        &&& node.childless()
    }
    ||| {
        &&& node.data == 0
        &&& node.depth < max_depth
        &&& node.grown(max_depth, outcomes)
    }
}

/// Whether every octant has at most one possible answer, as it has for a
/// classifier that is a function of its arguments.
pub open spec fn single_valued(outcomes: spec_fn(Vec3, Vec3, Vec3, OctantFillState) -> bool) -> bool {
    forall|center: Vec3, inner: Vec3, outer: Vec3, s: OctantFillState, t: OctantFillState|
        #![trigger outcomes(center, inner, outer, s), outcomes(center, inner, outer, t)]
        outcomes(center, inner, outer, s) && outcomes(center, inner, outer, t) ==> s == t
}

/// A filled slot of a grown node holds a produced node, placed in the octant
/// of the slot, for an answer other than `Empty`; an absent slot stands for
/// the answer `Empty`.
pub proof fn lemma_slot_of_grown(
    node: Octant,
    max_depth: u8,
    outcomes: spec_fn(Vec3, Vec3, Vec3, OctantFillState) -> bool,
    k: int,
)
    requires
        node.grown(max_depth, outcomes),
        0 <= k < 8,
    ensures
        match node.child(k) {
            Some(child) => {
                &&& placed(child, octant_cell(node.center, node.half_size, k), node.depth)
                &&& produced(child, max_depth, outcomes)
                &&& child.is_leaf() <==> child.data != 0
                &&& child.is_leaf() ==> {
                    ||| answers(
                        outcomes,
                        octant_cell(node.center, node.half_size, k),
                        OctantFillState::Full,
                    )
                    ||| node.depth + 1 >= max_depth && answers(
                        outcomes,
                        octant_cell(node.center, node.half_size, k),
                        OctantFillState::ContainsVoxel,
                    )
                }
                &&& !child.is_leaf() ==> node.depth + 1 < max_depth && answers(
                    outcomes,
                    octant_cell(node.center, node.half_size, k),
                    OctantFillState::ContainsVoxel,
                )
            },
            None => answers(
                outcomes,
                octant_cell(node.center, node.half_size, k),
                OctantFillState::Empty,
            ),
        },
{
    let cell = octant_cell(node.center, node.half_size, k);
    let slot = node.children[k];
    assert(slot_grown(node.center, node.half_size, node.depth, slot, k, max_depth, outcomes));
    let s = choose|s: OctantFillState|
        answers(outcomes, cell, s) && slot_follows(
            plan_for(s, node.depth as int, max_depth as int),
            cell,
            node.depth,
            slot,
            max_depth,
            outcomes,
        );
    lemma_lanes_of_packed(1, SOLID_RED, SOLID_GREEN, SOLID_BLUE);
}

/// The node that a path reaches from a grown node lies as many levels below
/// it as the path is long and, unless the path is empty, is a produced node.
pub proof fn lemma_descendant_of_grown(
    root: Octant,
    max_depth: u8,
    outcomes: spec_fn(Vec3, Vec3, Vec3, OctantFillState) -> bool,
    path: Seq<int>,
)
    requires
        root.grown(max_depth, outcomes),
        root.descendant(path) is Some,
    ensures
        root.descendant(path)->0.depth == root.depth + path.len(),
        path.len() == 0 ==> root.descendant(path)->0 == root,
        path.len() > 0 ==> produced(root.descendant(path)->0, max_depth, outcomes),
        path.len() > 1 ==> root.depth + path.len() <= max_depth,
        root.in_bounds() ==> root.descendant(path)->0.in_bounds(),
    decreases path.len(),
{
    if path.len() > 0 {
        let k = path[0];
        let rest = path.drop_first();
        let child = root.child(k)->0;
        assert(root.child(k) is Some);
        assert(0 <= k < 8);
        assert(root.descendant(path) == child.descendant(rest));
        lemma_slot_of_grown(root, max_depth, outcomes, k);
        if root.in_bounds() {
            lemma_octant_in_bounds(root.center@, root.half_size@, k);
        }
        if rest.len() > 0 {
            assert(child.child(rest[0]) is Some);
            assert(child.children[rest[0]] is Some);
            lemma_descendant_of_grown(child, max_depth, outcomes, rest);
        }
    }
}

/// A node of a grown tree that has a child is itself grown, and the child
/// sits in one of its eight slots.
pub proof fn lemma_parent_is_grown(
    root: Octant,
    max_depth: u8,
    outcomes: spec_fn(Vec3, Vec3, Vec3, OctantFillState) -> bool,
    path: Seq<int>,
    k: int,
)
    requires
        root.grown(max_depth, outcomes),
        root.descendant(path) is Some,
        root.descendant(path)->0.child(k) is Some,
    ensures
        root.descendant(path)->0.grown(max_depth, outcomes),
        0 <= k < 8,
{
    let node = root.descendant(path)->0;
    lemma_descendant_of_grown(root, max_depth, outcomes, path);
    assert(node.children[k] is Some);
}

/// In a tree grown from a root at depth 0 to a depth limit of at least 1, no
/// node lies deeper than the limit.
pub proof fn lemma_depth_bound(
    root: Octant,
    max_depth: u8,
    outcomes: spec_fn(Vec3, Vec3, Vec3, OctantFillState) -> bool,
    path: Seq<int>,
)
    requires
        root.grown(max_depth, outcomes),
        root.depth == 0,
        max_depth >= 1,
        root.descendant(path) is Some,
    ensures
        root.descendant(path)->0.depth <= max_depth,
{
    lemma_descendant_of_grown(root, max_depth, outcomes, path);
}

/// Whatever the depth limit and the depth of the root, no node of a grown
/// tree lies deeper than both the limit and the level just below the root:
/// the children of the root are created even where the limit is 0.
pub proof fn lemma_depth_bound_any_limit(
    root: Octant,
    max_depth: u8,
    outcomes: spec_fn(Vec3, Vec3, Vec3, OctantFillState) -> bool,
    path: Seq<int>,
)
    requires
        root.grown(max_depth, outcomes),
        root.descendant(path) is Some,
    ensures
        root.descendant(path)->0.depth <= max_depth || root.descendant(path)->0.depth <= root.depth
            + 1,
{
    lemma_descendant_of_grown(root, max_depth, outcomes, path);
}

/// Every child in a grown tree lies exactly one level below its parent.
pub proof fn lemma_child_depth(
    root: Octant,
    max_depth: u8,
    outcomes: spec_fn(Vec3, Vec3, Vec3, OctantFillState) -> bool,
    path: Seq<int>,
    k: int,
)
    requires
        root.grown(max_depth, outcomes),
        root.descendant(path) is Some,
        root.descendant(path)->0.child(k) is Some,
    ensures
        root.descendant(path)->0.child(k)->0.depth == root.descendant(path)->0.depth + 1,
{
    let node = root.descendant(path)->0;
    lemma_parent_is_grown(root, max_depth, outcomes, path, k);
    lemma_slot_of_grown(node, max_depth, outcomes, k);
}

/// In a tree grown from a root in bounds, the half extent of every child is
/// half of its parent's, and its centre is the parent's centre moved, along
/// each axis, by the child's half extent toward the side of its octant.
pub proof fn lemma_child_geometry(
    root: Octant,
    max_depth: u8,
    outcomes: spec_fn(Vec3, Vec3, Vec3, OctantFillState) -> bool,
    path: Seq<int>,
    k: int,
)
    requires
        root.grown(max_depth, outcomes),
        root.in_bounds(),
        root.descendant(path) is Some,
        root.descendant(path)->0.child(k) is Some,
    ensures
        ({
            let parent = root.descendant(path)->0;
            let child = parent.child(k)->0;
            &&& child.half_size@ == parent.half_size@.halved()
            &&& child.center@ == parent.center@.plus(child.half_size@.times(octant_sign(k)))
            &&& child.center@ == child_center(parent.center@, parent.half_size@, k)
            &&& child.in_bounds()
        }),
{
    let parent = root.descendant(path)->0;
    lemma_parent_is_grown(root, max_depth, outcomes, path, k);
    lemma_descendant_of_grown(root, max_depth, outcomes, path);
    lemma_slot_of_grown(parent, max_depth, outcomes, k);
    lemma_octant_in_bounds(parent.center@, parent.half_size@, k);
}

/// At every node of a grown tree that was subdivided (the root and every
/// node without the leaf flag), a slot is filled only where the classifier
/// answered `ContainsVoxel` or `Full` for its octant, and absent only where it
/// answered `Empty`.
pub proof fn lemma_sparsity(
    root: Octant,
    max_depth: u8,
    outcomes: spec_fn(Vec3, Vec3, Vec3, OctantFillState) -> bool,
    path: Seq<int>,
    k: int,
)
    requires
        root.grown(max_depth, outcomes),
        root.descendant(path) is Some,
        path.len() == 0 || !root.descendant(path)->0.is_leaf(),
        0 <= k < 8,
    ensures
        ({
            let node = root.descendant(path)->0;
            let cell = octant_cell(node.center, node.half_size, k);
            &&& node.child(k) is Some ==> answers(outcomes, cell, OctantFillState::ContainsVoxel)
                || answers(outcomes, cell, OctantFillState::Full)
            &&& node.child(k) is None ==> answers(outcomes, cell, OctantFillState::Empty)
        }),
{
    let node = root.descendant(path)->0;
    lemma_descendant_of_grown(root, max_depth, outcomes, path);
    lemma_lanes_of_packed(1, SOLID_RED, SOLID_GREEN, SOLID_BLUE);
    lemma_slot_of_grown(node, max_depth, outcomes, k);
}

/// For a classifier that is a function of its arguments, a slot of a
/// subdivided node is filled if and only if the answer for its octant is
/// `ContainsVoxel` or `Full`, and absent if and only if it is `Empty`.
pub proof fn lemma_sparsity_of_function(
    root: Octant,
    max_depth: u8,
    outcomes: spec_fn(Vec3, Vec3, Vec3, OctantFillState) -> bool,
    path: Seq<int>,
    k: int,
)
    requires
        root.grown(max_depth, outcomes),
        single_valued(outcomes),
        root.descendant(path) is Some,
        path.len() == 0 || !root.descendant(path)->0.is_leaf(),
        0 <= k < 8,
    ensures
        ({
            let node = root.descendant(path)->0;
            let cell = octant_cell(node.center, node.half_size, k);
            &&& node.child(k) is Some <==> answers(outcomes, cell, OctantFillState::ContainsVoxel)
                || answers(outcomes, cell, OctantFillState::Full)
            &&& node.child(k) is None <==> answers(outcomes, cell, OctantFillState::Empty)
        }),
{
    lemma_sparsity(root, max_depth, outcomes, path, k);
}

/// Every node with the leaf flag that subdivision produced has eight absent
/// slots.
pub proof fn lemma_leaf_is_childless(
    root: Octant,
    max_depth: u8,
    outcomes: spec_fn(Vec3, Vec3, Vec3, OctantFillState) -> bool,
    path: Seq<int>,
)
    requires
        root.grown(max_depth, outcomes),
        path.len() > 0,
        root.descendant(path) is Some,
        root.descendant(path)->0.is_leaf(),
    ensures
        root.descendant(path)->0.childless(),
        root.descendant(path)->0.children.len() == 8,
{
    lemma_descendant_of_grown(root, max_depth, outcomes, path);
}

/// A node that subdivision produced has the leaf flag if and only if all its
/// slots are absent, unless it is an interior node for each of whose eight
/// octants the classifier may answer `Empty`: such a node has neither the
/// flag nor a child.
pub proof fn lemma_leaf_iff_childless(
    root: Octant,
    max_depth: u8,
    outcomes: spec_fn(Vec3, Vec3, Vec3, OctantFillState) -> bool,
    path: Seq<int>,
)
    requires
        root.grown(max_depth, outcomes),
        path.len() > 0,
        root.descendant(path) is Some,
        ({
            let node = root.descendant(path)->0;
            node.is_leaf() || exists|k: int|
                0 <= k < 8 && !#[trigger] answers(
                    outcomes,
                    octant_cell(node.center, node.half_size, k),
                    OctantFillState::Empty,
                )
        }),
    ensures
        root.descendant(path)->0.is_leaf() <==> root.descendant(path)->0.childless(),
{
    let node = root.descendant(path)->0;
    lemma_descendant_of_grown(root, max_depth, outcomes, path);
    if !node.is_leaf() {
        let k = choose|k: int|
            0 <= k < 8 && !#[trigger] answers(
                outcomes,
                octant_cell(node.center, node.half_size, k),
                OctantFillState::Empty,
            );
        lemma_lanes_of_packed(1, SOLID_RED, SOLID_GREEN, SOLID_BLUE);
        lemma_slot_of_grown(node, max_depth, outcomes, k);
        assert(node.children[k] is Some);
    }
}

/// Where the classifier answers nothing but `Full`, a grown node has exactly
/// eight children, all of them childless leaves of the solid colour one level
/// below it, whatever the depth limit.
pub proof fn lemma_full_everywhere(
    root: Octant,
    max_depth: u8,
    outcomes: spec_fn(Vec3, Vec3, Vec3, OctantFillState) -> bool,
)
    requires
        root.grown(max_depth, outcomes),
        forall|center: Vec3, inner: Vec3, outer: Vec3, s: OctantFillState| #[trigger]
            outcomes(center, inner, outer, s) ==> s == OctantFillState::Full,
    ensures
        root.children.len() == 8,
        forall|k: int|
            0 <= k < 8 ==> {
                &&& (#[trigger] root.child(k)) is Some
                &&& root.child(k)->0.is_leaf()
                &&& root.child(k)->0.color() == (SOLID_RED, SOLID_GREEN, SOLID_BLUE)
                &&& root.child(k)->0.depth == root.depth + 1
                &&& root.child(k)->0.childless()
            },
        root.descendant_count() == 8,
        root.leaf_count() == 8 + if root.is_leaf() { 1int } else { 0int },
{
    lemma_lanes_of_packed(1, SOLID_RED, SOLID_GREEN, SOLID_BLUE);
    assert forall|k: int| 0 <= k < 8 implies {
        &&& (#[trigger] root.child(k)) is Some
        &&& root.child(k)->0.is_leaf()
        &&& root.child(k)->0.color() == (SOLID_RED, SOLID_GREEN, SOLID_BLUE)
        &&& root.child(k)->0.depth == root.depth + 1
        &&& root.child(k)->0.childless()
        &&& root.child(k)->0.descendant_count() == 0
        &&& root.child(k)->0.leaf_count() == 1
    } by {
        lemma_slot_of_grown(root, max_depth, outcomes, k);
        let child = root.child(k)->0;
        lemma_node_count_of_absent(child.children@, 8);
        lemma_leaf_count_of_absent(child.children@, 8);
    }
    assert forall|i: int| 0 <= i < 8 implies {
        &&& (#[trigger] root.children@[i]) is Some
        &&& root.children@[i]->0.descendant_count() == 0
        &&& root.children@[i]->0.leaf_count() == 1
    } by {
        assert(root.child(i) is Some);
    }
    lemma_counts_of_eight_leaves(root.children@, 8);
}

/// Absent slots hold no leaf.
pub proof fn lemma_leaf_count_of_absent(slots: Seq<Option<Box<Octant>>>, n: int)
    requires
        0 <= n <= slots.len(),
        forall|i: int| 0 <= i < n ==> (#[trigger] slots[i]) is None,
    ensures
        slots_leaf_count(slots, n) == 0,
    decreases n,
{
    if n > 0 {
        lemma_leaf_count_of_absent(slots, n - 1);
    }
}

/// Slots that each hold a childless leaf hold as many nodes, and as many
/// leaves, as there are slots.
pub proof fn lemma_counts_of_eight_leaves(slots: Seq<Option<Box<Octant>>>, n: int)
    requires
        0 <= n <= slots.len(),
        forall|i: int|
            0 <= i < n ==> {
                &&& (#[trigger] slots[i]) is Some
                &&& slots[i]->0.descendant_count() == 0
                &&& slots[i]->0.leaf_count() == 1
            },
    ensures
        slots_node_count(slots, n) == n,
        slots_leaf_count(slots, n) == n,
    decreases n,
{
    if n > 0 {
        lemma_counts_of_eight_leaves(slots, n - 1);
    }
}

/// A classifier that is a function of its arguments leaves no choice: two
/// nodes with the same box and depth that are grown to the same limit under
/// its answers hold the same tree below them.
pub proof fn lemma_grown_is_determined(
    a: Octant,
    b: Octant,
    max_depth: u8,
    outcomes: spec_fn(Vec3, Vec3, Vec3, OctantFillState) -> bool,
)
    requires
        a.grown(max_depth, outcomes),
        b.grown(max_depth, outcomes),
        single_valued(outcomes),
        a.center == b.center,
        a.half_size == b.half_size,
        a.depth == b.depth,
    ensures
        a@.children == b@.children,
    decreases a,
{
    lemma_slots_shapes(a.children@, 8);
    lemma_slots_shapes(b.children@, 8);
    assert forall|k: int| 0 <= k < 8 implies a@.children[k] == b@.children[k] by {
        let cell = octant_cell(a.center, a.half_size, k);
        lemma_slot_of_grown(a, max_depth, outcomes, k);
        lemma_slot_of_grown(b, max_depth, outcomes, k);
        lemma_lanes_of_packed(1, SOLID_RED, SOLID_GREEN, SOLID_BLUE);
        match (a.children[k], b.children[k]) {
            (Some(c), Some(d)) => {
                assert(a.child(k) == Some(*c) && b.child(k) == Some(*d));
                lemma_slots_shapes(c.children@, 8);
                lemma_slots_shapes(d.children@, 8);
                if c.is_leaf() {
                    assert(d.is_leaf());
                    assert(c@.children =~= d@.children);
                } else {
                    assert(!d.is_leaf());
                    lemma_grown_is_determined(*c, *d, max_depth, outcomes);
                }
                assert(c@ == d@);
            },
            (None, None) => {},
            _ => {
                assert(a.child(k) is Some <==> a.children[k] is Some);
                assert(b.child(k) is Some <==> b.children[k] is Some);
                assert(false);
            },
        }
    }
    assert(a@.children =~= b@.children);
}

} // verus!

//! The three-way classification of an octant and what subdivision does with
//! each answer.

use vstd::prelude::*;

verus! {

/// How much of an octant a volume fills. A classifier returns it; the tree
/// never stores it.
#[derive(Clone, Copy, PartialEq, Eq, Structural, Debug)]
pub enum OctantFillState {
    /// No part of the volume touches the octant.
    Empty,
    /// The volume covers part of the octant.
    ContainsVoxel,
    /// The octant lies entirely inside the volume.
    Full,
}

/// What subdivision puts into the slot of one octant.
#[derive(Clone, Copy, PartialEq, Eq, Structural, Debug)]
pub enum ChildPlan {
    /// Nothing: the slot stays absent.
    Absent,
    /// A solid leaf.
    Leaf,
    /// An interior node that is subdivided in turn.
    Interior,
}

/// The plan for an octant of a node at `parent_depth`, classified as `state`,
/// when the tree may go no deeper than `max_depth`.
///
/// An empty octant gets nothing and a full one a leaf at once. A partly
/// covered octant is subdivided further while its depth stays below the limit,
/// and becomes a leaf where it does not.
pub open spec fn plan_for(state: OctantFillState, parent_depth: int, max_depth: int) -> ChildPlan {
    match state {
        OctantFillState::Empty => ChildPlan::Absent,
        OctantFillState::ContainsVoxel => if parent_depth + 1 < max_depth {
            ChildPlan::Interior
        } else {
            ChildPlan::Leaf
        },
        OctantFillState::Full => ChildPlan::Leaf,
    }
}

/// Decides what to put into the slot of an octant classified as `state`.
pub fn plan_child(state: OctantFillState, parent_depth: u8, max_depth: u8) -> (plan: ChildPlan)
    ensures
        plan == plan_for(state, parent_depth as int, max_depth as int),
{
    match state {
        OctantFillState::Empty => ChildPlan::Absent,
        OctantFillState::ContainsVoxel => {
            if parent_depth < max_depth && parent_depth + 1 < max_depth {
                ChildPlan::Interior
            } else {
                ChildPlan::Leaf
            }
        },
        OctantFillState::Full => ChildPlan::Leaf,
    }
}

} // verus!

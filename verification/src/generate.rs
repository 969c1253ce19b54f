//! Growing the tree: recursive subdivision driven by a classifier.
//!
//! A classifier is any function from an octant (its centre, its inner corner
//! and its outer corner) to an `OctantFillState`. What a grown tree looks like
//! is stated against the classifier's possible answers: a relation between the
//! three arguments and the state, which for a function that always answers the
//! same holds of exactly one state.

use vstd::prelude::*;
use crate::fill::{plan_child, plan_for, ChildPlan, OctantFillState};
use crate::geometry::{child_cell, lemma_octant_in_bounds, octant_cell, ChildCell};
use crate::lattice::Vec3;
use crate::octree::{slots_node_count, Octant, VoxelOctree};
use crate::packing::packed;
use crate::sphere::{classify_sphere, sphere_fill_state};

verus! {

/// The red channel of every leaf that subdivision creates. Together with the
/// green and blue channels it makes magenta, a colour that is easy to spot.
pub const SOLID_RED: u8 = 255;

/// The green channel of every leaf that subdivision creates.
pub const SOLID_GREEN: u8 = 0;

/// The blue channel of every leaf that subdivision creates.
pub const SOLID_BLUE: u8 = 255;

/// The answers that the executable classifier `f` may give: `s` is among them
/// for an octant if a call of `f` on that octant may return `s`.
pub open spec fn outcomes_of<F: Fn(Vec3, Vec3, Vec3) -> OctantFillState>(f: F) -> spec_fn(
    Vec3,
    Vec3,
    Vec3,
    OctantFillState,
) -> bool {
    |center: Vec3, inner: Vec3, outer: Vec3, s: OctantFillState| f.ensures((center, inner, outer), s)
}

/// The answers of the ball of the given radius around the origin: one per octant.
pub open spec fn sphere_outcomes(radius: int) -> spec_fn(Vec3, Vec3, Vec3, OctantFillState) -> bool {
    |center: Vec3, inner: Vec3, outer: Vec3, s: OctantFillState|
        s == sphere_fill_state(radius, inner@, outer@)
}

/// Whether `s` is a possible answer for `cell`.
pub open spec fn answers(
    outcomes: spec_fn(Vec3, Vec3, Vec3, OctantFillState) -> bool,
    cell: ChildCell,
    s: OctantFillState,
) -> bool {
    outcomes(cell.center, cell.inner_corner, cell.outer_corner, s)
}

/// Whether `child` sits in `cell` one level below `depth`.
pub open spec fn placed(child: Octant, cell: ChildCell, depth: u8) -> bool {
    &&& child.center == cell.center
    &&& child.half_size == cell.half_size
    &&& child.depth == depth + 1
    &&& child.children.len() == 8
}

/// Whether `slot` holds what `plan` asks for in `cell` below a node at `depth`:
/// nothing, a childless leaf of the solid colour, or an interior node with a
/// zero state word that is grown in turn.
pub open spec fn slot_follows(
    plan: ChildPlan,
    cell: ChildCell,
    depth: u8,
    slot: Option<Box<Octant>>,
    max_depth: u8,
    outcomes: spec_fn(Vec3, Vec3, Vec3, OctantFillState) -> bool,
) -> bool
    decreases slot, 0int,
{
    match plan {
        ChildPlan::Absent => slot is None,
        ChildPlan::Leaf => match slot {
            Some(child) => {
                &&& placed(*child, cell, depth)
                &&& child.data == packed(1, SOLID_RED, SOLID_GREEN, SOLID_BLUE)
                &&& child.childless()
            },
            None => false,
        },
        ChildPlan::Interior => match slot {
            Some(child) => {
                &&& placed(*child, cell, depth)
                &&& child.data == 0
                &&& child.grown(max_depth, outcomes)
            },
            None => false,
        },
    }
}

/// Whether `slot` holds what subdivision makes of octant `k` of the box of a
/// node at `depth`, for one of the classifier's possible answers.
pub open spec fn slot_grown(
    center: Vec3,
    half_size: Vec3,
    depth: u8,
    slot: Option<Box<Octant>>,
    k: int,
    max_depth: u8,
    outcomes: spec_fn(Vec3, Vec3, Vec3, OctantFillState) -> bool,
) -> bool
    decreases slot, 1int,
{
    let cell = octant_cell(center, half_size, k);
    exists|s: OctantFillState|
        #![trigger answers(outcomes, cell, s)]
        answers(outcomes, cell, s) && slot_follows(
            plan_for(s, depth as int, max_depth as int),
            cell,
            depth,
            slot,
            max_depth,
            outcomes,
        )
}

/// `n` as a counter that stops at the largest `usize`.
pub open spec fn saturated(n: nat) -> usize {
    if n <= usize::MAX {
        n as usize
    } else {
        usize::MAX
    }
}

impl Octant {
    /// Whether everything below this node is what subdivision to `max_depth`
    /// makes of its box under the given answers: eight slots, each filled
    /// according to the plan for its octant.
    pub open spec fn grown(
        self,
        max_depth: u8,
        outcomes: spec_fn(Vec3, Vec3, Vec3, OctantFillState) -> bool,
    ) -> bool
        decreases self,
    {
        &&& self.children.len() == 8
        &&& forall|k: int|
            0 <= k < 8 ==> slot_grown(
                self.center,
                self.half_size,
                self.depth,
                #[trigger] self.children[k],
                k,
                max_depth,
                outcomes,
            )
    }
}

/// The count over the first `n` slots depends on those slots alone.
pub proof fn lemma_node_count_of_prefix(
    a: Seq<Option<Box<Octant>>>,
    b: Seq<Option<Box<Octant>>>,
    n: int,
)
    requires
        0 <= n <= a.len(),
        n <= b.len(),
        forall|i: int| 0 <= i < n ==> a[i] == b[i],
    ensures
        slots_node_count(a, n) == slots_node_count(b, n),
    decreases n,
{
    if n > 0 {
        lemma_node_count_of_prefix(a, b, n - 1);
    }
}

/// Absent slots hold no node.
pub proof fn lemma_node_count_of_absent(slots: Seq<Option<Box<Octant>>>, n: int)
    requires
        0 <= n <= slots.len(),
        forall|i: int| 0 <= i < n ==> (#[trigger] slots[i]) is None,
    ensures
        slots_node_count(slots, n) == 0,
    decreases n,
{
    if n > 0 {
        lemma_node_count_of_absent(slots, n - 1);
    }
}

/// A tree grown under some answers is grown under any answers that include
/// them.
pub proof fn lemma_grown_under_wider_outcomes(
    node: Octant,
    max_depth: u8,
    narrow: spec_fn(Vec3, Vec3, Vec3, OctantFillState) -> bool,
    wide: spec_fn(Vec3, Vec3, Vec3, OctantFillState) -> bool,
)
    requires
        node.grown(max_depth, narrow),
        forall|center: Vec3, inner: Vec3, outer: Vec3, s: OctantFillState| #[trigger]
            narrow(center, inner, outer, s) ==> wide(center, inner, outer, s),
    ensures
        node.grown(max_depth, wide),
    decreases node,
{
    assert forall|k: int| 0 <= k < 8 implies slot_grown(
        node.center,
        node.half_size,
        node.depth,
        #[trigger] node.children[k],
        k,
        max_depth,
        wide,
    ) by {
        let cell = octant_cell(node.center, node.half_size, k);
        let slot = node.children[k];
        assert(slot_grown(node.center, node.half_size, node.depth, slot, k, max_depth, narrow));
        let s = choose|s: OctantFillState|
            answers(narrow, cell, s) && slot_follows(
                plan_for(s, node.depth as int, max_depth as int),
                cell,
                node.depth,
                slot,
                max_depth,
                narrow,
            );
        assert(answers(wide, cell, s));
        if plan_for(s, node.depth as int, max_depth as int) == ChildPlan::Interior {
            lemma_grown_under_wider_outcomes(*slot->0, max_depth, narrow, wide);
        }
        assert(slot_follows(
            plan_for(s, node.depth as int, max_depth as int),
            cell,
            node.depth,
            slot,
            max_depth,
            wide,
        ));
    }
}

/// Every node below a grown node lies inside the box of that node: if that
/// box is in bounds, the export can write the whole tree.
pub proof fn lemma_grown_is_exportable(
    node: Octant,
    max_depth: u8,
    outcomes: spec_fn(Vec3, Vec3, Vec3, OctantFillState) -> bool,
)
    requires
        node.in_bounds(),
        node.grown(max_depth, outcomes),
    ensures
        node.exportable(),
    decreases node,
{
    assert forall|k: int| 0 <= k < node.children.len() implies match #[trigger] node.children[k] {
        Some(child) => child.exportable(),
        None => true,
    } by {
        let cell = octant_cell(node.center, node.half_size, k);
        let slot = node.children[k];
        assert(slot_grown(node.center, node.half_size, node.depth, slot, k, max_depth, outcomes));
        let s = choose|s: OctantFillState|
            answers(outcomes, cell, s) && slot_follows(
                plan_for(s, node.depth as int, max_depth as int),
                cell,
                node.depth,
                slot,
                max_depth,
                outcomes,
            );
        lemma_octant_in_bounds(node.center@, node.half_size@, k);
        if plan_for(s, node.depth as int, max_depth as int) == ChildPlan::Interior {
            lemma_grown_is_exportable(*slot->0, max_depth, outcomes);
        }
    }
}

/// Where the only possible answer is `Empty`, a grown node has no child.
pub proof fn lemma_nothing_grows_from_empty(
    node: Octant,
    max_depth: u8,
    outcomes: spec_fn(Vec3, Vec3, Vec3, OctantFillState) -> bool,
)
    requires
        node.grown(max_depth, outcomes),
        forall|center: Vec3, inner: Vec3, outer: Vec3, s: OctantFillState| #[trigger]
            outcomes(center, inner, outer, s) ==> s == OctantFillState::Empty,
    ensures
        node.childless(),
        node.descendant_count() == 0,
{
    assert forall|k: int| 0 <= k < 8 implies (#[trigger] node.children[k]) is None by {
        let cell = octant_cell(node.center, node.half_size, k);
        let slot = node.children[k];
        assert(slot_grown(node.center, node.half_size, node.depth, slot, k, max_depth, outcomes));
    }
    lemma_node_count_of_absent(node.children@, 8);
}

/// Adds two counters, stopping at the largest `usize`.
fn add_saturating(a: usize, b: usize, Ghost(m): Ghost<nat>, Ghost(n): Ghost<nat>) -> (sum: usize)
    requires
        a == saturated(m),
        b == saturated(n),
    ensures
        sum == saturated(m + n),
{
    a.saturating_add(b)
}

/// Subdivides the box of `octant` and replaces its slots by what the
/// classifier asks for, down to `max_depth`. Returns the number of nodes
/// created below `octant`.
fn gen_octant<F>(octant: &mut Octant, max_depth: u8, contains_voxel: &F) -> (nodes_generated: usize)
    where F: Fn(Vec3, Vec3, Vec3) -> OctantFillState
    requires
        old(octant).in_bounds(),
        old(octant).depth < u8::MAX,
        forall|center: Vec3, inner: Vec3, outer: Vec3|
            contains_voxel.requires((center, inner, outer)),
    ensures
        final(octant).data == old(octant).data,
        final(octant).center == old(octant).center,
        final(octant).half_size == old(octant).half_size,
        final(octant).depth == old(octant).depth,
        final(octant).grown(max_depth, outcomes_of(*contains_voxel)),
        nodes_generated == saturated(final(octant).descendant_count()),
    decreases max_depth - old(octant).depth,
{
    let ghost outcomes = outcomes_of(*contains_voxel);
    let mut slots: Vec<Option<Box<Octant>>> = Vec::new();
    let mut nodes_generated: usize = 0;
    let mut k: usize = 0;
    while k < 8
        invariant
            k <= 8,
            slots.len() == k,
            *octant == *old(octant),
            octant.in_bounds(),
            octant.depth < u8::MAX,
            outcomes == outcomes_of(*contains_voxel),
            forall|center: Vec3, inner: Vec3, outer: Vec3|
                contains_voxel.requires((center, inner, outer)),
            forall|j: int|
                0 <= j < k ==> slot_grown(
                    octant.center,
                    octant.half_size,
                    octant.depth,
                    #[trigger] slots[j],
                    j,
                    max_depth,
                    outcomes,
                ),
            nodes_generated == saturated(slots_node_count(slots@, k as int)),
        decreases 8 - k,
    {
        let ghost before = slots@;
        let cell = child_cell(octant.center, octant.half_size, k);
        let state = contains_voxel(cell.center, cell.inner_corner, cell.outer_corner);
        assert(answers(outcomes, cell, state));
        match plan_child(state, octant.depth, max_depth) {
            ChildPlan::Absent => {
                slots.push(None);
            },
            ChildPlan::Leaf => {
                let child = Octant::leaf(
                    cell.center,
                    cell.half_size,
                    octant.depth + 1,
                    SOLID_RED,
                    SOLID_GREEN,
                    SOLID_BLUE,
                );
                proof {
                    lemma_node_count_of_absent(child.children@, 8);
                }
                slots.push(Some(Box::new(child)));
                nodes_generated =
                add_saturating(
                    nodes_generated,
                    1,
                    Ghost(slots_node_count(before, k as int)),
                    Ghost(1),
                );
            },
            ChildPlan::Interior => {
                let mut child = Octant::empty(cell.center, cell.half_size, octant.depth + 1);
                let below = gen_octant(&mut child, max_depth, contains_voxel);
                let ghost below_count = child.descendant_count();
                slots.push(Some(Box::new(child)));
                let with_child = add_saturating(below, 1, Ghost(below_count), Ghost(1));
                nodes_generated =
                add_saturating(
                    nodes_generated,
                    with_child,
                    Ghost(slots_node_count(before, k as int)),
                    Ghost(below_count + 1),
                );
            },
        }
        proof {
            lemma_node_count_of_prefix(before, slots@, k as int);
            assert(slots_node_count(slots@, k + 1) == slots_node_count(slots@, k as int) + match slots@[k as int] {
                Some(child) => 1 + child.descendant_count(),
                None => 0,
            });
            assert(slot_grown(
                octant.center,
                octant.half_size,
                octant.depth,
                slots[k as int],
                k as int,
                max_depth,
                outcomes,
            ));
        }
        k += 1;
    }
    octant.children = slots;
    nodes_generated
}

impl VoxelOctree {
    /// Whether the root is at depth 0 and its box is in bounds.
    pub open spec fn wf(self) -> bool {
        self.root.depth == 0 && self.root.in_bounds()
    }

    /// Tests whether the root is at depth 0 and its box is in bounds.
    pub fn is_wf(&self) -> (ok: bool)
        ensures
            ok == self.wf(),
    {
        self.root.depth == 0 && self.root.is_in_bounds()
    }

    /// Grows the tree below the root: every octant that `contains_voxel` does
    /// not find empty gets a node, a partly covered one is subdivided further
    /// while `max_depth` allows, and a full one, or a partly covered one at the
    /// depth limit, becomes a leaf. Slots that the tree had before are
    /// replaced. Returns the number of nodes created, stopping at the largest
    /// `usize`.
    pub fn generate<F>(&mut self, max_depth: u8, contains_voxel: F) -> (nodes_generated: usize)
        where F: Fn(Vec3, Vec3, Vec3) -> OctantFillState + Copy
        requires
            old(self).wf(),
            forall|center: Vec3, inner: Vec3, outer: Vec3|
                contains_voxel.requires((center, inner, outer)),
        ensures
            final(self).root.data == old(self).root.data,
            final(self).root.center == old(self).root.center,
            final(self).root.half_size == old(self).root.half_size,
            final(self).root.depth == old(self).root.depth,
            final(self).wf(),
            final(self).root.grown(max_depth, outcomes_of(contains_voxel)),
            final(self).root.exportable(),
            nodes_generated == saturated(final(self).root.descendant_count()),
    {
        let nodes_generated = gen_octant(&mut self.root, max_depth, &contains_voxel);
        proof {
            lemma_grown_is_exportable(self.root, max_depth, outcomes_of(contains_voxel));
        }
        nodes_generated
    }

    /// Grows the tree as `generate` does, with the ball of the given radius
    /// around the origin of the lattice as the volume. A ball without radius
    /// grows nothing.
    pub fn generate_sphere(&mut self, radius: i64, max_depth: u8) -> (nodes_generated: usize)
        requires
            old(self).wf(),
        ensures
            final(self).root.data == old(self).root.data,
            final(self).root.center == old(self).root.center,
            final(self).root.half_size == old(self).root.half_size,
            final(self).root.depth == old(self).root.depth,
            final(self).wf(),
            final(self).root.grown(max_depth, sphere_outcomes(radius as int)),
            final(self).root.exportable(),
            nodes_generated == saturated(final(self).root.descendant_count()),
            radius <= 0 ==> nodes_generated == 0 && final(self).root.childless(),
    {
        let in_sphere = |center: Vec3, inner: Vec3, outer: Vec3| -> (state: OctantFillState)
            ensures
                state == sphere_fill_state(radius as int, inner@, outer@),
            { classify_sphere(radius, inner, outer) };
        let nodes_generated = gen_octant(&mut self.root, max_depth, &in_sphere);
        proof {
            lemma_grown_under_wider_outcomes(
                self.root,
                max_depth,
                outcomes_of(in_sphere),
                sphere_outcomes(radius as int),
            );
            lemma_grown_is_exportable(self.root, max_depth, sphere_outcomes(radius as int));
            if radius <= 0 {
                lemma_nothing_grows_from_empty(
                    self.root,
                    max_depth,
                    sphere_outcomes(radius as int),
                );
            }
        }
        nodes_generated
    }
}

} // verus!

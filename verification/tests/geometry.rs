use ice_vox_mem::fill::{plan_child, ChildPlan, OctantFillState};
use ice_vox_mem::geometry::{box_in_bounds, child_cell, octant_sign_of};
use ice_vox_mem::lattice::Vec3;

#[test]
fn octant_signs_count_in_binary() {
    assert_eq!(octant_sign_of(0), Vec3::new(-1, -1, -1));
    assert_eq!(octant_sign_of(1), Vec3::new(-1, -1, 1));
    assert_eq!(octant_sign_of(2), Vec3::new(-1, 1, -1));
    assert_eq!(octant_sign_of(3), Vec3::new(-1, 1, 1));
    assert_eq!(octant_sign_of(4), Vec3::new(1, -1, -1));
    assert_eq!(octant_sign_of(5), Vec3::new(1, -1, 1));
    assert_eq!(octant_sign_of(6), Vec3::new(1, 1, -1));
    assert_eq!(octant_sign_of(7), Vec3::new(1, 1, 1));
}

#[test]
fn child_cell_of_a_centred_box() {
    let cell = child_cell(Vec3::new(0, 0, 0), Vec3::new(8, 4, 2), 7);
    assert_eq!(cell.center, Vec3::new(4, 2, 1));
    assert_eq!(cell.half_size, Vec3::new(4, 2, 1));
    assert_eq!(cell.inner_corner, Vec3::new(0, 0, 0));
    assert_eq!(cell.outer_corner, Vec3::new(8, 4, 2));

    let cell = child_cell(Vec3::new(0, 0, 0), Vec3::new(8, 4, 2), 0);
    assert_eq!(cell.center, Vec3::new(-4, -2, -1));
    assert_eq!(cell.half_size, Vec3::new(4, 2, 1));
    assert_eq!(cell.inner_corner, Vec3::new(0, 0, 0));
    assert_eq!(cell.outer_corner, Vec3::new(-8, -4, -2));
}

#[test]
fn child_cell_of_an_off_centre_box() {
    let cell = child_cell(Vec3::new(10, -20, 30), Vec3::new(4, 4, 4), 5);
    assert_eq!(cell.center, Vec3::new(12, -22, 32));
    assert_eq!(cell.half_size, Vec3::new(2, 2, 2));
    assert_eq!(cell.inner_corner, Vec3::new(10, -20, 30));
    assert_eq!(cell.outer_corner, Vec3::new(14, -24, 34));
}

#[test]
fn child_cell_of_an_odd_extent_rounds_toward_zero() {
    let cell = child_cell(Vec3::new(0, 0, 0), Vec3::new(5, 1, 0), 6);
    assert_eq!(cell.half_size, Vec3::new(2, 0, 0));
    assert_eq!(cell.center, Vec3::new(2, 0, 0));
    assert_eq!(cell.inner_corner, Vec3::new(0, 0, 0));
    assert_eq!(cell.outer_corner, Vec3::new(4, 0, 0));
}

#[test]
fn child_cell_of_a_negative_extent() {
    let cell = child_cell(Vec3::new(0, 0, 0), Vec3::new(-5, -4, 3), 7);
    assert_eq!(cell.half_size, Vec3::new(-2, -2, 1));
    assert_eq!(cell.center, Vec3::new(-2, -2, 1));
    assert_eq!(cell.inner_corner, Vec3::new(0, 0, 0));
    assert_eq!(cell.outer_corner, Vec3::new(-4, -4, 2));
}

#[test]
fn child_cell_at_the_edge_of_the_lattice() {
    let cell = child_cell(Vec3::new(0, 0, 0), Vec3::new(i64::MAX, i64::MAX, i64::MAX), 7);
    let half = i64::MAX / 2;
    assert_eq!(cell.half_size, Vec3::new(half, half, half));
    assert_eq!(cell.center, Vec3::new(half, half, half));
    assert_eq!(cell.outer_corner, Vec3::new(i64::MAX - 1, i64::MAX - 1, i64::MAX - 1));
    let cell = child_cell(Vec3::new(-1, -1, -1), Vec3::new(i64::MAX, i64::MAX, i64::MAX), 0);
    assert_eq!(cell.center, Vec3::new(-1 - half, -1 - half, -1 - half));
    assert_eq!(cell.outer_corner, Vec3::new(i64::MIN + 1, i64::MIN + 1, i64::MIN + 1));
}

#[test]
fn box_in_bounds_checks_each_axis() {
    assert!(box_in_bounds(Vec3::new(0, 0, 0), Vec3::new(i64::MAX, i64::MAX, i64::MAX)));
    assert!(!box_in_bounds(Vec3::new(1, 0, 0), Vec3::new(i64::MAX, 0, 0)));
    assert!(!box_in_bounds(Vec3::new(0, -2, 0), Vec3::new(0, i64::MAX, 0)));
    assert!(!box_in_bounds(Vec3::new(0, 0, 0), Vec3::new(0, 0, i64::MIN)));
    assert!(box_in_bounds(Vec3::new(i64::MIN, i64::MAX, 0), Vec3::new(0, 0, 0)));
}

#[test]
fn plan_for_each_state_and_depth() {
    assert_eq!(plan_child(OctantFillState::Empty, 0, 5), ChildPlan::Absent);
    assert_eq!(plan_child(OctantFillState::Empty, 4, 5), ChildPlan::Absent);
    assert_eq!(plan_child(OctantFillState::Full, 0, 5), ChildPlan::Leaf);
    assert_eq!(plan_child(OctantFillState::Full, 4, 5), ChildPlan::Leaf);
    assert_eq!(plan_child(OctantFillState::Full, 0, 0), ChildPlan::Leaf);
    assert_eq!(plan_child(OctantFillState::ContainsVoxel, 0, 5), ChildPlan::Interior);
    assert_eq!(plan_child(OctantFillState::ContainsVoxel, 3, 5), ChildPlan::Interior);
    assert_eq!(plan_child(OctantFillState::ContainsVoxel, 4, 5), ChildPlan::Leaf);
    assert_eq!(plan_child(OctantFillState::ContainsVoxel, 5, 5), ChildPlan::Leaf);
    assert_eq!(plan_child(OctantFillState::ContainsVoxel, 0, 0), ChildPlan::Leaf);
    assert_eq!(plan_child(OctantFillState::ContainsVoxel, 0, 1), ChildPlan::Leaf);
    assert_eq!(plan_child(OctantFillState::ContainsVoxel, 0, 2), ChildPlan::Interior);
    assert_eq!(plan_child(OctantFillState::ContainsVoxel, 254, 255), ChildPlan::Leaf);
    assert_eq!(plan_child(OctantFillState::ContainsVoxel, 253, 255), ChildPlan::Interior);
    assert_eq!(plan_child(OctantFillState::ContainsVoxel, 255, 255), ChildPlan::Leaf);
}

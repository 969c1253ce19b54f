use ice_vox_mem::fill::OctantFillState;
use ice_vox_mem::lattice::Vec3;
use ice_vox_mem::octree::{Octant, VoxelOctree};
use ice_vox_mem::sphere::classify_sphere;

fn count_nodes(node: &Octant) -> usize {
    let mut n = 0;
    for slot in node.children.iter() {
        if let Some(child) = slot {
            n += 1 + count_nodes(child);
        }
    }
    n
}

fn count_leaves(node: &Octant) -> usize {
    let mut n = if node.is_leaf() { 1 } else { 0 };
    for slot in node.children.iter() {
        if let Some(child) = slot {
            n += count_leaves(child);
        }
    }
    n
}

#[test]
fn sphere_classifies_by_near_and_far_extent() {
    // near extent (0,0,0), far extent (1,1,1): 3 < 4
    assert_eq!(
        classify_sphere(2, Vec3::new(0, 0, 0), Vec3::new(1, 1, 1)),
        OctantFillState::Full
    );
    // near extent (1,1,1): 3 < 4, far extent (2,2,2): 12 >= 4
    assert_eq!(
        classify_sphere(2, Vec3::new(1, 1, 1), Vec3::new(2, 2, 2)),
        OctantFillState::ContainsVoxel
    );
    // near extent (2,2,2): 12 >= 4
    assert_eq!(
        classify_sphere(2, Vec3::new(2, 2, 2), Vec3::new(4, 4, 4)),
        OctantFillState::Empty
    );
}

#[test]
fn sphere_takes_extents_per_axis_and_by_magnitude() {
    // inner (4,-1,0), outer (-1,4,-3): near (1,1,0) -> 2, far (4,4,3) -> 41
    assert_eq!(
        classify_sphere(7, Vec3::new(4, -1, 0), Vec3::new(-1, 4, -3)),
        OctantFillState::Full
    );
    assert_eq!(
        classify_sphere(6, Vec3::new(4, -1, 0), Vec3::new(-1, 4, -3)),
        OctantFillState::ContainsVoxel
    );
    assert_eq!(
        classify_sphere(2, Vec3::new(4, -1, 0), Vec3::new(-1, 4, -3)),
        OctantFillState::ContainsVoxel
    );
    assert_eq!(
        classify_sphere(1, Vec3::new(4, -1, 0), Vec3::new(-1, 4, -3)),
        OctantFillState::Empty
    );
}

#[test]
fn sphere_boundary_is_outside() {
    // far extent (3,4,0) has length exactly 5
    assert_eq!(
        classify_sphere(5, Vec3::new(0, 0, 0), Vec3::new(3, 4, 0)),
        OctantFillState::ContainsVoxel
    );
    assert_eq!(
        classify_sphere(6, Vec3::new(0, 0, 0), Vec3::new(3, 4, 0)),
        OctantFillState::Full
    );
    // near extent (3,4,0) has length exactly 5
    assert_eq!(
        classify_sphere(5, Vec3::new(3, 4, 0), Vec3::new(6, 8, 0)),
        OctantFillState::Empty
    );
}

#[test]
fn sphere_without_radius_is_empty_everywhere() {
    assert_eq!(
        classify_sphere(0, Vec3::new(0, 0, 0), Vec3::new(0, 0, 0)),
        OctantFillState::Empty
    );
    assert_eq!(
        classify_sphere(-3, Vec3::new(0, 0, 0), Vec3::new(1, 1, 1)),
        OctantFillState::Empty
    );
    assert_eq!(
        classify_sphere(i64::MIN, Vec3::new(0, 0, 0), Vec3::new(0, 0, 0)),
        OctantFillState::Empty
    );
}

#[test]
fn sphere_at_the_edge_of_the_lattice() {
    let low = Vec3::new(i64::MIN, i64::MIN, i64::MIN);
    let high = Vec3::new(i64::MAX, i64::MAX, i64::MAX);
    assert_eq!(classify_sphere(i64::MAX, low, high), OctantFillState::Empty);
    assert_eq!(
        classify_sphere(i64::MAX, Vec3::new(0, 0, 0), high),
        OctantFillState::ContainsVoxel
    );
    assert_eq!(
        classify_sphere(i64::MAX, Vec3::new(0, 0, 0), Vec3::new(i64::MAX - 1, 0, 0)),
        OctantFillState::Full
    );
    assert_eq!(
        classify_sphere(i64::MAX, Vec3::new(0, 0, 0), Vec3::new(i64::MIN, 0, 0)),
        OctantFillState::ContainsVoxel
    );
}

#[test]
fn generate_sphere_without_radius_creates_nothing() {
    for max_depth in [0u8, 1, 2, 7, 255] {
        let mut tree = VoxelOctree::empty(Vec3::new(0, 0, 0), Vec3::new(16, 16, 16));
        assert_eq!(tree.generate_sphere(0, max_depth), 0);
        assert_eq!(tree.root.children.len(), 8);
        assert!(tree.root.children.iter().all(|slot| slot.is_none()));
        assert!(!tree.root.is_leaf());
    }
}

#[test]
fn generate_sphere_around_the_whole_box_makes_eight_leaves() {
    let mut tree = VoxelOctree::empty(Vec3::new(0, 0, 0), Vec3::new(16, 16, 16));
    // the far corner (8,8,8) has squared length 192 < 14 * 14
    assert_eq!(tree.generate_sphere(14, 2), 8);
    for slot in tree.root.children.iter() {
        let child = slot.as_ref().unwrap();
        assert!(child.is_leaf());
        assert_eq!(child.depth, 1);
        assert!(child.children.iter().all(|s| s.is_none()));
    }
}

#[test]
fn generate_sphere_subdivides_the_boundary() {
    let mut tree = VoxelOctree::empty(Vec3::new(0, 0, 0), Vec3::new(16, 16, 16));
    assert_eq!(tree.generate_sphere(5, 2), 40);
    assert_eq!(count_nodes(&tree.root), 40);
    assert_eq!(count_leaves(&tree.root), 32);
    // the octant on the high side of every axis
    let corner = tree.root.children[7].as_ref().unwrap();
    assert!(!corner.is_leaf());
    assert_eq!(corner.center, Vec3::new(4, 4, 4));
    assert_eq!(corner.half_size, Vec3::new(4, 4, 4));
    let filled: Vec<bool> = corner.children.iter().map(|s| s.is_some()).collect();
    assert_eq!(filled, vec![true, true, true, false, true, false, false, false]);
    let inner = corner.children[0].as_ref().unwrap();
    assert!(inner.is_leaf());
    assert_eq!(inner.center, Vec3::new(2, 2, 2));
    assert_eq!(inner.half_size, Vec3::new(2, 2, 2));
    assert_eq!(inner.depth, 2);
    let along_z = corner.children[1].as_ref().unwrap();
    assert_eq!(along_z.center, Vec3::new(2, 2, 6));
}

#[test]
fn generate_sphere_counts_at_several_depths() {
    let mut tree = VoxelOctree::empty(Vec3::new(0, 0, 0), Vec3::new(16, 16, 16));
    assert_eq!(tree.generate_sphere(5, 3), 200);
    assert_eq!(count_leaves(&tree.root), 160);
    let mut tree = VoxelOctree::empty(Vec3::new(0, 0, 0), Vec3::new(16, 16, 16));
    assert_eq!(tree.generate_sphere(8, 3), 416);
    assert_eq!(count_leaves(&tree.root), 352);
    let mut tree = VoxelOctree::empty(Vec3::new(0, 0, 0), Vec3::new(16, 16, 16));
    assert_eq!(tree.generate_sphere(12, 3), 328);
    assert_eq!(count_leaves(&tree.root), 288);
}

#[test]
fn generate_sphere_is_centred_on_the_origin_of_the_lattice() {
    let mut tree = VoxelOctree::empty(Vec3::new(8, 8, 8), Vec3::new(16, 16, 16));
    assert_eq!(tree.generate_sphere(10, 3), 82);
    assert_eq!(count_leaves(&tree.root), 62);
    let filled: Vec<bool> = tree.root.children.iter().map(|s| s.is_some()).collect();
    assert_eq!(filled, vec![true, true, true, false, true, false, false, false]);
}

#[test]
fn generate_sphere_below_the_resolution_of_the_lattice() {
    // at depth 3 the boxes have half extent 1 and their octants none: every
    // octant then has both corners at the centre of its parent, outside the ball
    let mut tree = VoxelOctree::empty(Vec3::new(0, 0, 0), Vec3::new(16, 16, 16));
    assert_eq!(tree.generate_sphere(1, 4), 24);
    assert_eq!(count_leaves(&tree.root), 0);
}

use ice_vox_mem::fill::OctantFillState;
use ice_vox_mem::geometry::octant_sign_of;
use ice_vox_mem::lattice::Vec3;
use ice_vox_mem::octree::{Octant, VoxelOctree};

fn cube(half: i64) -> VoxelOctree {
    VoxelOctree::empty(Vec3::new(0, 0, 0), Vec3::new(2 * half, 2 * half, 2 * half))
}

fn always_full(_center: Vec3, _inner: Vec3, _outer: Vec3) -> OctantFillState {
    OctantFillState::Full
}

fn always_partial(_center: Vec3, _inner: Vec3, _outer: Vec3) -> OctantFillState {
    OctantFillState::ContainsVoxel
}

fn always_empty(_center: Vec3, _inner: Vec3, _outer: Vec3) -> OctantFillState {
    OctantFillState::Empty
}

/// Full on the high side of x, partial on the low side of x and the high side
/// of y, empty elsewhere.
fn by_side(center: Vec3, _inner: Vec3, _outer: Vec3) -> OctantFillState {
    if center.x > 0 {
        OctantFillState::Full
    } else if center.y > 0 {
        OctantFillState::ContainsVoxel
    } else {
        OctantFillState::Empty
    }
}

fn visit(node: &Octant, f: &mut dyn FnMut(&Octant)) {
    f(node);
    for slot in node.children.iter() {
        if let Some(child) = slot {
            visit(child, f);
        }
    }
}

fn count_nodes(tree: &VoxelOctree) -> usize {
    let mut n = 0;
    visit(&tree.root, &mut |_| n += 1);
    n - 1
}

#[test]
fn full_classifier_makes_eight_leaves_at_depth_one() {
    for max_depth in [2u8, 3, 10, 255] {
        let mut tree = cube(8);
        assert_eq!(tree.generate(max_depth, always_full), 8);
        assert_eq!(tree.root.children.len(), 8);
        for slot in tree.root.children.iter() {
            let child = slot.as_ref().unwrap();
            assert!(child.is_leaf());
            assert_eq!(child.depth, 1);
            assert_eq!(child.children.len(), 8);
            assert!(child.children.iter().all(|s| s.is_none()));
        }
        assert!(!tree.root.is_leaf());
    }
}

#[test]
fn full_classifier_with_a_depth_limit_of_zero_or_one() {
    for max_depth in [0u8, 1] {
        let mut tree = cube(8);
        assert_eq!(tree.generate(max_depth, always_full), 8);
        assert_eq!(count_nodes(&tree), 8);
        for slot in tree.root.children.iter() {
            assert_eq!(slot.as_ref().unwrap().depth, 1);
        }
    }
}

#[test]
fn generated_leaves_are_magenta() {
    let mut tree = cube(8);
    tree.generate(3, always_full);
    for slot in tree.root.children.iter() {
        let child = slot.as_ref().unwrap();
        assert_eq!(child.color(), (255, 0, 255));
        assert_eq!(child.data, 0xFF00_FF01);
    }
    let mut tree = cube(8);
    tree.generate(1, always_partial);
    for slot in tree.root.children.iter() {
        let child = slot.as_ref().unwrap();
        assert!(child.is_leaf());
        assert_eq!(child.data, 0xFF00_FF01);
    }
}

#[test]
fn empty_classifier_creates_nothing() {
    let mut tree = cube(8);
    assert_eq!(tree.generate(4, always_empty), 0);
    assert_eq!(tree.root.children.len(), 8);
    assert!(tree.root.children.iter().all(|slot| slot.is_none()));
}

#[test]
fn partial_classifier_fills_the_tree_to_the_depth_limit() {
    let mut tree = cube(8);
    assert_eq!(tree.generate(1, always_partial), 8);
    let mut tree = cube(8);
    assert_eq!(tree.generate(2, always_partial), 8 + 64);
    let mut tree = cube(8);
    assert_eq!(tree.generate(3, always_partial), 8 + 64 + 512);
    assert_eq!(count_nodes(&tree), 584);
    let mut leaves = 0;
    let mut interiors = 0;
    visit(&tree.root, &mut |node| {
        if node.is_leaf() {
            assert_eq!(node.depth, 3);
            leaves += 1;
        } else {
            assert!(node.depth < 3);
            assert_eq!(node.data, 0);
            interiors += 1;
        }
    });
    assert_eq!(leaves, 512);
    assert_eq!(interiors, 1 + 8 + 64);
}

#[test]
fn no_node_lies_deeper_than_the_limit() {
    for max_depth in 1..=4u8 {
        let mut tree = cube(64);
        tree.generate(max_depth, by_side);
        visit(&tree.root, &mut |node| assert!(node.depth <= max_depth));
        let mut tree = cube(64);
        tree.generate_sphere(40, max_depth);
        visit(&tree.root, &mut |node| assert!(node.depth <= max_depth));
    }
}

#[test]
fn depth_limit_of_zero_still_creates_the_children_of_the_root() {
    let mut tree = cube(8);
    assert_eq!(tree.generate(0, always_partial), 8);
    visit(&tree.root, &mut |node| assert!(node.depth <= 1));
    for slot in tree.root.children.iter() {
        let child = slot.as_ref().unwrap();
        assert!(child.is_leaf());
        assert_eq!(child.depth, 1);
    }
}

#[test]
fn children_lie_one_level_below_their_parent() {
    let mut tree = cube(64);
    tree.generate(4, by_side);
    visit(&tree.root, &mut |node| {
        for slot in node.children.iter() {
            if let Some(child) = slot {
                assert_eq!(child.depth, node.depth + 1);
            }
        }
    });
}

#[test]
fn children_halve_the_box_and_sit_in_their_octant() {
    let mut tree = VoxelOctree::empty(Vec3::new(100, -200, 300), Vec3::new(128, 64, 32));
    tree.generate(3, always_partial);
    let mut pairs = 0;
    visit(&tree.root, &mut |node| {
        for (k, slot) in node.children.iter().enumerate() {
            let child = match slot {
                Some(child) => child,
                None => {
                    assert!(node.is_leaf());
                    continue;
                }
            };
            pairs += 1;
            let sign = octant_sign_of(k);
            assert_eq!(child.half_size.x, node.half_size.x / 2);
            assert_eq!(child.half_size.y, node.half_size.y / 2);
            assert_eq!(child.half_size.z, node.half_size.z / 2);
            assert_eq!(child.center.x, node.center.x + sign.x * child.half_size.x);
            assert_eq!(child.center.y, node.center.y + sign.y * child.half_size.y);
            assert_eq!(child.center.z, node.center.z + sign.z * child.half_size.z);
        }
    });
    assert_eq!(pairs, 584);
    let first = tree.root.children[0].as_ref().unwrap();
    assert_eq!(first.center, Vec3::new(100 - 32, -200 - 16, 300 - 8));
    assert_eq!(first.half_size, Vec3::new(32, 16, 8));
    let last = tree.root.children[7].as_ref().unwrap();
    assert_eq!(last.center, Vec3::new(100 + 32, -200 + 16, 300 + 8));
    let deep = last.children[1].as_ref().unwrap();
    assert_eq!(deep.center, Vec3::new(132 - 16, -184 - 8, 308 + 4));
    assert_eq!(deep.half_size, Vec3::new(16, 8, 4));
}

#[test]
fn slots_are_filled_exactly_where_the_classifier_found_volume() {
    let mut tree = cube(8);
    assert_eq!(tree.generate(1, by_side), 6);
    // slots 0 to 3 lie on the low side of x, slots 2, 3, 6 and 7 on the high side of y
    let filled: Vec<bool> = tree.root.children.iter().map(|s| s.is_some()).collect();
    assert_eq!(filled, vec![false, false, true, true, true, true, true, true]);
    for (k, slot) in tree.root.children.iter().enumerate() {
        let sign = octant_sign_of(k);
        let center = Vec3::new(4 * sign.x, 4 * sign.y, 4 * sign.z);
        let state = by_side(center, Vec3::new(0, 0, 0), Vec3::new(0, 0, 0));
        assert_eq!(slot.is_some(), state != OctantFillState::Empty);
        if let Some(child) = slot {
            assert_eq!(child.center, center);
        }
    }
}

#[test]
fn classifier_is_asked_about_each_octant_with_its_corners() {
    let seen = std::cell::RefCell::new(Vec::new());
    let mut tree = VoxelOctree::empty(Vec3::new(10, 20, 30), Vec3::new(8, 8, 8));
    let record = |center: Vec3, inner: Vec3, outer: Vec3| {
        seen.borrow_mut().push((center, inner, outer));
        OctantFillState::Empty
    };
    assert_eq!(tree.generate(3, &record), 0);
    let seen = seen.into_inner();
    assert_eq!(seen.len(), 8);
    assert_eq!(
        seen[0],
        (Vec3::new(8, 18, 28), Vec3::new(10, 20, 30), Vec3::new(6, 16, 26))
    );
    assert_eq!(
        seen[1],
        (Vec3::new(8, 18, 32), Vec3::new(10, 20, 30), Vec3::new(6, 16, 34))
    );
    assert_eq!(
        seen[4],
        (Vec3::new(12, 18, 28), Vec3::new(10, 20, 30), Vec3::new(14, 16, 26))
    );
    assert_eq!(
        seen[7],
        (Vec3::new(12, 22, 32), Vec3::new(10, 20, 30), Vec3::new(14, 24, 34))
    );
}

#[test]
fn leaves_have_no_children_and_filled_interiors_are_no_leaves() {
    let mut tree = cube(64);
    tree.generate(4, by_side);
    let mut seen = 0;
    for slot in tree.root.children.iter() {
        if let Some(child) = slot {
            visit(child, &mut |node| {
                let childless = node.children.iter().all(|s| s.is_none());
                assert_eq!(node.is_leaf(), childless);
                seen += 1;
            });
        }
    }
    assert!(seen > 8);
}

#[test]
fn interior_whose_octants_are_all_empty_is_childless_without_the_leaf_flag() {
    // partial for the octants of the root, empty below
    let shallow = |_center: Vec3, inner: Vec3, outer: Vec3| {
        if (outer.x - inner.x).abs() == 8 {
            OctantFillState::ContainsVoxel
        } else {
            OctantFillState::Empty
        }
    };
    let mut tree = cube(8);
    assert_eq!(tree.generate(3, shallow), 8);
    for slot in tree.root.children.iter() {
        let child = slot.as_ref().unwrap();
        assert!(!child.is_leaf());
        assert!(child.children.iter().all(|s| s.is_none()));
    }
}

#[test]
fn full_wins_over_the_depth_budget() {
    // full on the high side of x at once, partial elsewhere
    let mixed = |center: Vec3, _inner: Vec3, _outer: Vec3| {
        if center.x > 0 {
            OctantFillState::Full
        } else {
            OctantFillState::ContainsVoxel
        }
    };
    let mut tree = cube(8);
    // high side of x: 4 leaves; low side of x: 4 interior nodes, below each
    // 8 interior nodes, below each of those 8 leaves at the depth limit
    assert_eq!(tree.generate(3, mixed), 4 + 4 + 4 * 8 + 32 * 8);
    for k in 4..8 {
        let child = tree.root.children[k].as_ref().unwrap();
        assert!(child.is_leaf());
        assert_eq!(child.depth, 1);
    }
    for k in 0..4 {
        let child = tree.root.children[k].as_ref().unwrap();
        assert!(!child.is_leaf());
    }
}

#[test]
fn generating_again_replaces_the_slots() {
    let mut tree = cube(8);
    assert_eq!(tree.generate(2, always_partial), 72);
    assert_eq!(tree.generate(2, always_empty), 0);
    assert!(tree.root.children.iter().all(|slot| slot.is_none()));
    assert_eq!(tree.generate(5, always_full), 8);
    assert_eq!(count_nodes(&tree), 8);
}

#[test]
fn generate_keeps_the_root_as_it_is() {
    let mut tree = VoxelOctree::empty(Vec3::new(1, 2, 3), Vec3::new(32, 32, 32));
    tree.generate(2, by_side);
    assert_eq!(tree.root.center, Vec3::new(1, 2, 3));
    assert_eq!(tree.root.half_size, Vec3::new(16, 16, 16));
    assert_eq!(tree.root.depth, 0);
    assert_eq!(tree.root.data, 0);
    assert!(tree.is_wf());
    assert!(tree.is_exportable());
}

#[test]
fn generate_at_the_edge_of_the_lattice() {
    let mut tree = VoxelOctree {
        root: Octant::empty(
            Vec3::new(0, 0, 0),
            Vec3::new(i64::MAX, i64::MAX, i64::MAX),
            0,
        ),
    };
    assert!(tree.is_wf());
    assert_eq!(tree.generate(2, always_partial), 72);
    assert!(tree.is_exportable());
    let last = tree.root.children[7].as_ref().unwrap();
    assert_eq!(last.half_size.x, i64::MAX / 2);
    assert_eq!(last.center.x, i64::MAX / 2);
}

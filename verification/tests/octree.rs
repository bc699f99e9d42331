use voxel_octree::bounds::{Bounds, Origin};
use voxel_octree::octree::{BuildError, Octree, MEMORY_SIZE};
use voxel_octree::path::{OctantPath, Voxel};
use voxel_octree::table::DescriptorTable;

const ROOT: usize = MEMORY_SIZE - 1;

fn voxel(x: f32, y: f32, z: f32) -> Voxel {
    Voxel { x: x.to_bits(), y: y.to_bits(), z: z.to_bits() }
}

/// Walk the table from the root with a voxel's own octant path, as the
/// reachability property describes: root occupancy bit, implicit
/// root-children block at base 0, stored child pointer, leaf occupancy bit.
fn walk(descriptors: &[u32], p: &OctantPath) -> bool {
    let root = descriptors[descriptors.len() - 1];
    if root & (1u32 << p.coarse) == 0 {
        return false;
    }
    let d1 = descriptors[p.coarse as usize];
    if d1 & (1u32 << p.mid) == 0 || d1 >> 8 == 0 {
        return false;
    }
    let leaf = descriptors[(d1 >> 8) as usize + p.mid as usize];
    leaf & (1u32 << p.fine) != 0
}

// Example scenario, part one: a single voxel whose path is octant 5 at the
// coarsest scale, 2 at the middle scale, 7 at the finest. Coarse bits come
// from bit 22 of each axis pattern, mid bits from bit 21, fine bits from
// any lower bit.
#[test]
fn single_voxel_scenario() {
    let v = Voxel { x: (1 << 22) | 1, y: (1 << 21) | 1, z: (1 << 22) | 1 };
    let p = v.octant_path();
    assert_eq!(p, OctantPath { coarse: 5, mid: 2, fine: 7 });

    let o = Octree::new(Origin { x: 8, y: 8, z: 8 }, 16, vec![v]).unwrap();
    // root mask bit 5 set, nothing else in the root word
    assert_eq!(o.descriptors[ROOT], 1 << 5);
    // the node at root_child_base + 5 has mask bit 2 and a child block
    let d1 = o.descriptors[5];
    assert_eq!(d1 & 0xff, 1 << 2);
    let base = (d1 >> 8) as usize;
    assert_eq!(base, 8); // the first allocated block
    // the node at that block's slot 2 has mask bit 7 and no child block: a leaf
    assert_eq!(o.descriptors[base + 2], 1 << 7);
    assert_eq!(o.free_address, 8);
}

// Example scenario, part two: a second voxel with the same coarse and mid
// octants but leaf octant 3 reuses both internal addresses and only adds a
// bit to the same leaf descriptor.
#[test]
fn second_voxel_reuses_addresses() {
    let a = Voxel { x: (1 << 22) | 1, y: (1 << 21) | 1, z: (1 << 22) | 1 };
    let b = Voxel { x: (1 << 22) | 1, y: (1 << 21) | 1, z: 1 << 22 };
    assert_eq!(b.octant_path(), OctantPath { coarse: 5, mid: 2, fine: 3 });

    let o = Octree::new(Origin { x: 8, y: 8, z: 8 }, 16, vec![a, b]).unwrap();
    assert_eq!(o.free_address, 8); // no allocation beyond the first block
    assert_eq!(o.descriptors[ROOT], 1 << 5);
    assert_eq!(o.descriptors[5], (8 << 8) | (1 << 2));
    assert_eq!(o.descriptors[8 + 2], (1 << 7) | (1 << 3));
}

#[test]
fn octant_path_from_float_bits() {
    // 15.0 = 0x41700000: bits 22, 21 and 20 of the pattern are set.
    // 8.0 = 0x41000000: no bit below the exponent is set.
    // 9.0 = 0x41100000: only bit 20 is set below the exponent.
    let p = voxel(15.0, 8.0, 9.0).octant_path();
    assert_eq!(p, OctantPath { coarse: 1, mid: 1, fine: 5 });

    let q = voxel(8.0, 8.0, 8.0).octant_path();
    assert_eq!(q, OctantPath { coarse: 0, mid: 0, fine: 0 });
}

// Reachability: every voxel of the input can be walked from the root with
// its own path, ending at a set leaf bit.
#[test]
fn every_input_voxel_reachable() {
    let voxels = vec![
        voxel(8.0, 8.0, 8.0),
        voxel(15.0, 8.0, 9.0),
        voxel(8.0, 15.0, 10.0),
        voxel(15.0, 15.0, 11.0),
        voxel(11.0, 12.0, 12.0),
        voxel(12.0, 11.0, 14.0),
    ];
    let o = Octree::new(Origin { x: 8, y: 8, z: 8 }, 16, voxels.clone()).unwrap();
    for v in &voxels {
        assert!(walk(&o.descriptors, &v.octant_path()));
    }
}

// Commutativity of occupancy: a permuted input reaches exactly the same
// paths, even though the permuted build may allocate different addresses.
#[test]
fn occupancy_commutes_under_permutation() {
    let a = vec![
        voxel(8.0, 8.0, 8.0),
        voxel(15.0, 8.0, 9.0),
        voxel(8.0, 15.0, 10.0),
        voxel(15.0, 15.0, 11.0),
        voxel(11.0, 12.0, 12.0),
    ];
    let mut b = a.clone();
    b.reverse();

    let o1 = Octree::new(Origin { x: 8, y: 8, z: 8 }, 16, a.clone()).unwrap();
    let o2 = Octree::new(Origin { x: 8, y: 8, z: 8 }, 16, b).unwrap();

    // same occupancy through the walk, for every octant path
    for coarse in 0..8u8 {
        for mid in 0..8u8 {
            for fine in 0..8u8 {
                let p = OctantPath { coarse, mid, fine };
                assert_eq!(walk(&o1.descriptors, &p), walk(&o2.descriptors, &p));
            }
        }
    }
    // the two tables really allocated the subtrees at different addresses
    assert_ne!(o1.descriptors, o2.descriptors);
}

// Idempotence: inserting a voxel already present changes neither the
// occupancy masks nor the allocation cursor.
#[test]
fn reinserting_voxel_changes_nothing() {
    let base = vec![voxel(15.0, 8.0, 9.0), voxel(8.0, 15.0, 10.0)];
    let mut twice = base.clone();
    twice.push(base[0]);

    let o1 = Octree::new(Origin { x: 8, y: 8, z: 8 }, 16, base).unwrap();
    let o2 = Octree::new(Origin { x: 8, y: 8, z: 8 }, 16, twice).unwrap();
    assert_eq!(o1.descriptors, o2.descriptors);
    assert_eq!(o1.free_address, o2.free_address);
}

// Allocation monotonicity: the cursor never decreases and is always a
// multiple of 8.
#[test]
fn cursor_monotone_and_aligned() {
    let mut table = DescriptorTable::new(MEMORY_SIZE);
    let mut last = table.cursor;
    for coarse in 0..8u8 {
        for fine in 0..8u8 {
            let p = OctantPath { coarse, mid: fine, fine };
            table.insert(&p).unwrap();
            assert!(table.cursor >= last);
            assert_eq!(table.cursor % 8, 0);
            last = table.cursor;
        }
    }
    assert_eq!(table.cursor, 64); // one block per distinct coarse octant
}

// Capacity boundary: a table too small for one more child block reports
// the failure and is left untouched.
#[test]
fn capacity_exceeded_reported() {
    // 24 words: the implicit block at 0, room for exactly one allocated
    // block at 8, and the root at index 23.
    let mut table = DescriptorTable::new(24);
    table.insert(&OctantPath { coarse: 0, mid: 1, fine: 2 }).unwrap();
    assert_eq!(table.cursor, 8);

    let words_before = table.words.clone();
    let r = table.insert(&OctantPath { coarse: 1, mid: 0, fine: 0 });
    assert!(r.is_err());
    assert_eq!(table.words, words_before);
    assert_eq!(table.cursor, 8);

    // a path through the already-allocated block still succeeds
    table.insert(&OctantPath { coarse: 0, mid: 3, fine: 4 }).unwrap();
    assert_eq!(table.cursor, 8);
}

// Bounds exactness: max - min is the edge length on every axis, for any
// origin.
#[test]
fn bounds_exact() {
    let b = Bounds::new(Origin { x: -5, y: 7, z: 0 }, 16);
    assert_eq!((b.min.x, b.min.y, b.min.z), (-5, 7, 0));
    assert_eq!((b.max.x, b.max.y, b.max.z), (11, 23, 16));

    let c = Bounds::new(Origin { x: i32::MIN, y: i32::MAX, z: 8 }, u32::MAX);
    assert_eq!(c.max.x - c.min.x, u32::MAX as i64);
    assert_eq!(c.max.y - c.min.y, u32::MAX as i64);
    assert_eq!(c.max.z - c.min.z, u32::MAX as i64);
}

#[test]
fn octree_carries_bounds() {
    let o = Octree::new(Origin { x: 8, y: 8, z: 8 }, 16, vec![voxel(9.0, 9.0, 9.0)]).unwrap();
    assert_eq!((o.bounds.min.x, o.bounds.min.y, o.bounds.min.z), (8, 8, 8));
    assert_eq!((o.bounds.max.x, o.bounds.max.y, o.bounds.max.z), (24, 24, 24));
}

// An out-of-range coordinate aborts the build, naming the first offender.
#[test]
fn rejects_out_of_range_coordinate() {
    let bad = voxel(9.0, -1.0, 9.0); // negative: sign bit set
    let r = Octree::new(Origin { x: 8, y: 8, z: 8 }, 16, vec![voxel(9.0, 9.0, 9.0), bad]);
    assert_eq!(r.unwrap_err(), BuildError::CoordinateOutOfRange { index: 1 });

    let nan = voxel(f32::NAN, 9.0, 9.0);
    let r = Octree::new(Origin { x: 8, y: 8, z: 8 }, 16, vec![nan]);
    assert_eq!(r.unwrap_err(), BuildError::CoordinateOutOfRange { index: 0 });

    let inf = voxel(9.0, 9.0, f32::INFINITY);
    let r = Octree::new(Origin { x: 8, y: 8, z: 8 }, 16, vec![inf]);
    assert_eq!(r.unwrap_err(), BuildError::CoordinateOutOfRange { index: 0 });
}

// An empty voxel list is a valid, ordinary input.
#[test]
fn empty_input_builds_empty_tree() {
    let o = Octree::new(Origin { x: 0, y: 0, z: 0 }, 16, Vec::new()).unwrap();
    assert_eq!(o.free_address, 0);
    assert_eq!(o.descriptors.len(), MEMORY_SIZE);
    assert!(o.descriptors.iter().all(|&d| d == 0));
}

// The finished table, read through the walk, holds exactly the paths of
// the input: no path is lost and no stray occupancy appears. The root
// word is exactly the OR of the coarse masks.
#[test]
fn occupancy_matches_reference_model() {
    let voxels = vec![
        voxel(8.0, 8.0, 8.0),
        voxel(15.0, 8.0, 9.0),
        voxel(8.0, 15.0, 10.0),
        voxel(15.0, 15.0, 11.0),
        voxel(11.0, 12.0, 12.0),
        voxel(12.0, 11.0, 14.0),
        voxel(9.5, 13.5, 8.5),
    ];
    let o = Octree::new(Origin { x: 8, y: 8, z: 8 }, 16, voxels.clone()).unwrap();

    let paths: Vec<OctantPath> = voxels.iter().map(|v| v.octant_path()).collect();
    let mut expected_root = 0u32;
    for p in &paths {
        expected_root |= 1 << p.coarse;
    }
    assert_eq!(o.descriptors[ROOT], expected_root);

    for coarse in 0..8u8 {
        for mid in 0..8u8 {
            for fine in 0..8u8 {
                let q = OctantPath { coarse, mid, fine };
                assert_eq!(walk(&o.descriptors, &q), paths.contains(&q));
            }
        }
    }
}

// Voxels sharing a full path land in the same leaf bit: valid input, one
// allocation.
#[test]
fn voxels_sharing_full_path() {
    let a = voxel(9.25, 8.0, 8.0);
    let b = voxel(9.75, 8.0, 8.0);
    assert_eq!(a.octant_path(), b.octant_path());
    let o = Octree::new(Origin { x: 8, y: 8, z: 8 }, 16, vec![a, b]).unwrap();
    assert_eq!(o.free_address, 8);
    let one = Octree::new(Origin { x: 8, y: 8, z: 8 }, 16, vec![a]).unwrap();
    assert_eq!(o.descriptors, one.descriptors);
}

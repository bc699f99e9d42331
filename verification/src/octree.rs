use vstd::prelude::*;

verus! {

use crate::bounds::{Bounds, Origin, bounds_of};
use crate::descriptor::{occ_bit, child_ptr, lemma_zero_word};
use crate::path::{Voxel, OctantPath, path_of, voxel_in_range};
use crate::table::{DescriptorTable, reaches, root_index, table_wf, lemma_allocated_children_card};

/// Total number of descriptor slots in the finished octree's table; the
/// last slot is the root descriptor.
pub const MEMORY_SIZE: usize = 1024;

/// Why a construction call was aborted, and at which input voxel.
#[derive(Clone, Copy, Debug, PartialEq, Eq, Structural)]
pub enum BuildError {
    /// Inserting the voxel at `index` would have needed one more child
    /// block than the table can hold.
    CapacityExceeded { index: usize },
    /// The voxel at `index` has a coordinate outside the range the scale
    /// configuration supports; quantizing it would silently pick a wrong
    /// octant, so the build is rejected instead.
    CoordinateOutOfRange { index: usize },
}

/// The octant paths of a voxel sequence, as a set: insertion order plays
/// no part in it.
pub open spec fn path_set(vs: Seq<Voxel>) -> Set<OctantPath> {
    vs.map_values(|v: Voxel| path_of(v)).to_set()
}

/// The coarsest-scale octants of a voxel sequence, as a set: the root
/// descriptor's occupancy mask is measured against it.
pub open spec fn coarse_set(vs: Seq<Voxel>) -> Set<u8> {
    vs.map_values(|v: Voxel| path_of(v).coarse).to_set()
}

/// The (coarse, mid) octant prefixes of a voxel sequence: the depth-1
/// occupancy masks are measured against them.
pub open spec fn prefix_set(vs: Seq<Voxel>) -> Set<(u8, u8)> {
    vs.map_values(|v: Voxel| (path_of(v).coarse, path_of(v).mid)).to_set()
}

/// A descriptor table represents a voxel sequence when its occupancy is
/// exact at every level: the paths reachable from the root are exactly
/// the paths of the sequence, the root mask holds octant `c` exactly when
/// some voxel's coarsest octant is `c`, each depth-1 mask holds octant
/// `m` exactly when some voxel chose that (coarse, mid) prefix, and a
/// depth-1 node owns a child block exactly when its octant is occupied.
pub open spec fn represents(t: Seq<u32>, vs: Seq<Voxel>) -> bool {
    &&& (forall|q: OctantPath| q.wf() ==> (reaches(t, q) <==> path_set(vs).contains(q)))
    &&& (forall|c: u8|
        c < 8 ==> (#[trigger] occ_bit(t[root_index(t)], c as u32) <==> coarse_set(vs).contains(c)))
    &&& (forall|c: u8, m: u8|
        c < 8 && m < 8 ==> (#[trigger] occ_bit(t[c as int], m as u32) <==> prefix_set(
            vs,
        ).contains((c, m))))
    &&& (forall|c: u8|
        c < 8 ==> (#[trigger] child_ptr(t[c as int]) != 0 <==> coarse_set(vs).contains(c)))
}

/// Extending a voxel prefix by one voxel extends its path set by exactly
/// that voxel's path.
proof fn lemma_path_set_extend(vs: Seq<Voxel>, i: int)
    requires
        0 <= i < vs.len(),
    ensures
        path_set(vs.subrange(0, i + 1)) =~= path_set(vs.subrange(0, i)).insert(path_of(vs[i])),
{
    let m0 = vs.subrange(0, i).map_values(|v: Voxel| path_of(v));
    let m1 = vs.subrange(0, i + 1).map_values(|v: Voxel| path_of(v));
    assert forall|q: OctantPath| m1.to_set().contains(q) implies (m0.to_set().contains(q)
        || q == path_of(vs[i])) by {
        let k = choose|k: int| 0 <= k < m1.len() && m1[k] == q;
        if k < i {
            assert(m0[k] == q);
        }
    }
    assert forall|q: OctantPath| m0.to_set().contains(q) || q == path_of(vs[i]) implies
        m1.to_set().contains(q) by {
        if m0.to_set().contains(q) {
            let k = choose|k: int| 0 <= k < m0.len() && m0[k] == q;
            assert(m1[k] == q);
        } else {
            assert(m1[i] == q);
        }
    }
}

/// Extending a voxel prefix by one voxel extends its coarse-octant set by
/// exactly that voxel's coarse octant.
proof fn lemma_coarse_set_extend(vs: Seq<Voxel>, i: int)
    requires
        0 <= i < vs.len(),
    ensures
        coarse_set(vs.subrange(0, i + 1)) =~= coarse_set(vs.subrange(0, i)).insert(
            path_of(vs[i]).coarse,
        ),
{
    let m0 = vs.subrange(0, i).map_values(|v: Voxel| path_of(v).coarse);
    let m1 = vs.subrange(0, i + 1).map_values(|v: Voxel| path_of(v).coarse);
    assert forall|c: u8| m1.to_set().contains(c) implies (m0.to_set().contains(c)
        || c == path_of(vs[i]).coarse) by {
        let k = choose|k: int| 0 <= k < m1.len() && m1[k] == c;
        if k < i {
            assert(m0[k] == c);
        }
    }
    assert forall|c: u8| m0.to_set().contains(c) || c == path_of(vs[i]).coarse implies
        m1.to_set().contains(c) by {
        if m0.to_set().contains(c) {
            let k = choose|k: int| 0 <= k < m0.len() && m0[k] == c;
            assert(m1[k] == c);
        } else {
            assert(m1[i] == c);
        }
    }
}

/// Extending a voxel prefix by one voxel extends its (coarse, mid) prefix
/// set by exactly that voxel's prefix.
proof fn lemma_prefix_set_extend(vs: Seq<Voxel>, i: int)
    requires
        0 <= i < vs.len(),
    ensures
        prefix_set(vs.subrange(0, i + 1)) =~= prefix_set(vs.subrange(0, i)).insert(
            (path_of(vs[i]).coarse, path_of(vs[i]).mid),
        ),
{
    let m0 = vs.subrange(0, i).map_values(|v: Voxel| (path_of(v).coarse, path_of(v).mid));
    let m1 = vs.subrange(0, i + 1).map_values(|v: Voxel| (path_of(v).coarse, path_of(v).mid));
    assert forall|c: (u8, u8)| m1.to_set().contains(c) implies (m0.to_set().contains(c)
        || c == (path_of(vs[i]).coarse, path_of(vs[i]).mid)) by {
        let k = choose|k: int| 0 <= k < m1.len() && m1[k] == c;
        if k < i {
            assert(m0[k] == c);
        }
    }
    assert forall|c: (u8, u8)| m0.to_set().contains(c) || c == (path_of(vs[i]).coarse,
        path_of(vs[i]).mid) implies m1.to_set().contains(c) by {
        if m0.to_set().contains(c) {
            let k = choose|k: int| 0 <= k < m0.len() && m0[k] == c;
            assert(m1[k] == c);
        } else {
            assert(m1[i] == c);
        }
    }
}

/// The finished octree: one bounds record, one descriptor table of
/// `MEMORY_SIZE` words, and the final allocation cursor. Produced by a
/// single construction call and immutable thereafter.
#[derive(Debug)]
pub struct Octree {
    pub bounds: Bounds,
    pub descriptors: Vec<u32>,
    pub free_address: u32,
}

impl Octree {
    /// The table invariant, over the octree's own fields, at the fixed
    /// capacity.
    pub open spec fn wf(self) -> bool {
        &&& self.descriptors@.len() == MEMORY_SIZE
        &&& table_wf(self.descriptors@, self.free_address as int)
    }

    /// Build an octree from a batch of voxel coordinates.
    ///
    /// Initializes an all-zero table and a zero allocation cursor,
    /// computes the bounds from the origin and edge length, then feeds
    /// every voxel in order through the octant path resolver and the
    /// table builder. Input order does not affect which paths are
    /// reachable, only which addresses hold which subtree.
    ///
    /// The whole build aborts with an error naming the first offending
    /// voxel instead of returning a partial octree. With three encoded
    /// levels at this capacity at most 8 child blocks are ever allocated,
    /// so only an out-of-range coordinate can abort it.
    pub fn new(location: Origin, size: u32, voxels: Vec<Voxel>) -> (r: Result<Octree, BuildError>)
        ensures
            match r {
                Ok(o) => {
                    &&& o.wf()
                    &&& forall|j: int|
                        0 <= j < voxels@.len() ==> voxel_in_range(#[trigger] voxels@[j])
                    &&& represents(o.descriptors@, voxels@)
                    &&& o.bounds == bounds_of(location, size)
                    &&& o.free_address % 8 == 0
                    &&& o.free_address <= 64
                },
                Err(BuildError::CoordinateOutOfRange { index }) => {
                    &&& 0 <= index < voxels@.len()
                    &&& !voxel_in_range(voxels@[index as int])
                    &&& forall|j: int| 0 <= j < index ==> voxel_in_range(#[trigger] voxels@[j])
                },
                Err(BuildError::CapacityExceeded { .. }) => false,
            },
    {
        let bounds = Bounds::new(location, size);
        let mut table = DescriptorTable::new(MEMORY_SIZE);
        proof {
            lemma_zero_word();
        }
        let n = voxels.len();
        let mut i: usize = 0;
        while i < n
            invariant
                n == voxels@.len(),
                i <= n,
                table.wf(),
                table.words@.len() == MEMORY_SIZE,
                forall|j: int| 0 <= j < i ==> voxel_in_range(#[trigger] voxels@[j]),
                represents(table.words@, voxels@.subrange(0, i as int)),
            decreases n - i,
        {
            let v = voxels[i];
            if !v.in_range() {
                return Err(BuildError::CoordinateOutOfRange { index: i });
            }
            let p = v.octant_path();
            proof {
                // At most 8 child blocks ever exist, so the cursor stays at
                // or below 64 and one more block always fits below slot 1023.
                lemma_allocated_children_card(table.words@);
            }
            let res = table.insert(&p);
            proof {
                lemma_path_set_extend(voxels@, i as int);
                lemma_coarse_set_extend(voxels@, i as int);
                lemma_prefix_set_extend(voxels@, i as int);
            }
            match res {
                Ok(()) => {},
                Err(()) => {
                    // Dead at this capacity: the cursor is at most 64 and
                    // 64 + 16 < MEMORY_SIZE, so insert always succeeds.
                    return Err(BuildError::CapacityExceeded { index: i });
                },
            }
            i += 1;
        }
        proof {
            lemma_allocated_children_card(table.words@);
            assert(voxels@.subrange(0, n as int) =~= voxels@);
        }
        Ok(Octree { bounds, descriptors: table.words, free_address: table.cursor })
    }
}

} // verus!

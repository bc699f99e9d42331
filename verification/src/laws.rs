use vstd::prelude::*;

verus! {

use crate::descriptor::occ_bit;
use crate::path::{Voxel, OctantPath, path_of};
use crate::table::{reaches, root_index};
use crate::octree::{represents, path_set, coarse_set, prefix_set};
use vstd::seq_lib::to_multiset_contains;

/// Reachability: every voxel fed into a build stays reachable. Walking a
/// table that represents the input from its root, with the voxel's own
/// per-scale octant path, ends at a leaf descriptor whose occupancy bit
/// for the voxel's leaf octant is set.
pub proof fn lemma_every_voxel_reachable(t: Seq<u32>, vs: Seq<Voxel>, i: int)
    requires
        represents(t, vs),
        0 <= i < vs.len(),
    ensures
        reaches(t, path_of(vs[i])),
{
    let m = vs.map_values(|v: Voxel| path_of(v));
    assert(m[i] == path_of(vs[i]));
    assert(path_set(vs).contains(path_of(vs[i])));
    assert(path_of(vs[i]).wf());
}

/// Commutativity of occupancy: two builds whose inputs are permutations
/// of each other end with the same occupancy at every level — the same
/// reachable paths, the same root mask bits and the same depth-1 mask
/// bits — even though they may have allocated different addresses to the
/// same subtrees.
pub proof fn lemma_occupancy_commutative(
    t1: Seq<u32>,
    t2: Seq<u32>,
    vs1: Seq<Voxel>,
    vs2: Seq<Voxel>,
)
    requires
        represents(t1, vs1),
        represents(t2, vs2),
        vs1.to_multiset() == vs2.to_multiset(),
    ensures
        forall|q: OctantPath| q.wf() ==> (reaches(t1, q) <==> reaches(t2, q)),
        forall|c: u8|
            c < 8 ==> (#[trigger] occ_bit(t1[root_index(t1)], c as u32) <==> occ_bit(
                t2[root_index(t2)],
                c as u32,
            )),
        forall|c: u8, m: u8|
            c < 8 && m < 8 ==> (#[trigger] occ_bit(t1[c as int], m as u32) <==> occ_bit(
                t2[c as int],
                m as u32,
            )),
{
    lemma_octant_sets_permutation(vs1, vs2);
    lemma_octant_sets_permutation(vs2, vs1);
}

/// Sequences with the same elements have the same path set, the same
/// coarse-octant set and the same prefix set; one direction each.
proof fn lemma_octant_sets_permutation(vs1: Seq<Voxel>, vs2: Seq<Voxel>)
    requires
        vs1.to_multiset() == vs2.to_multiset(),
    ensures
        forall|q: OctantPath| path_set(vs1).contains(q) ==> path_set(vs2).contains(q),
        forall|c: u8| coarse_set(vs1).contains(c) ==> coarse_set(vs2).contains(c),
        forall|cm: (u8, u8)| prefix_set(vs1).contains(cm) ==> prefix_set(vs2).contains(cm),
{
    let m1 = vs1.map_values(|v: Voxel| path_of(v));
    let m2 = vs2.map_values(|v: Voxel| path_of(v));
    assert forall|q: OctantPath| path_set(vs1).contains(q) implies path_set(vs2).contains(q) by {
        let k = choose|k: int| 0 <= k < m1.len() && m1[k] == q;
        let k2 = lemma_element_carries_over(vs1, vs2, k);
        assert(m2[k2] == q);
    }
    let c1 = vs1.map_values(|v: Voxel| path_of(v).coarse);
    let c2 = vs2.map_values(|v: Voxel| path_of(v).coarse);
    assert forall|c: u8| coarse_set(vs1).contains(c) implies coarse_set(vs2).contains(c) by {
        let k = choose|k: int| 0 <= k < c1.len() && c1[k] == c;
        let k2 = lemma_element_carries_over(vs1, vs2, k);
        assert(c2[k2] == c);
    }
    let p1 = vs1.map_values(|v: Voxel| (path_of(v).coarse, path_of(v).mid));
    let p2 = vs2.map_values(|v: Voxel| (path_of(v).coarse, path_of(v).mid));
    assert forall|cm: (u8, u8)| prefix_set(vs1).contains(cm) implies prefix_set(vs2).contains(
        cm,
    ) by {
        let k = choose|k: int| 0 <= k < p1.len() && p1[k] == cm;
        let k2 = lemma_element_carries_over(vs1, vs2, k);
        assert(p2[k2] == cm);
    }
}

/// An element of one sequence occurs, at some index, in any permutation
/// of it.
proof fn lemma_element_carries_over(vs1: Seq<Voxel>, vs2: Seq<Voxel>, k: int) -> (k2: int)
    requires
        vs1.to_multiset() == vs2.to_multiset(),
        0 <= k < vs1.len(),
    ensures
        0 <= k2 < vs2.len(),
        vs2[k2] == vs1[k],
{
    let v = vs1[k];
    assert(vs1.contains(v));
    to_multiset_contains(vs1, v);
    to_multiset_contains(vs2, v);
    assert(vs2.contains(v));
    choose|k2: int| 0 <= k2 < vs2.len() && vs2[k2] == v
}

} // verus!

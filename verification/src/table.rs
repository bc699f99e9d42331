use vstd::prelude::*;

verus! {

use crate::descriptor::{occ_bit, child_ptr, lemma_zero_word, lemma_or_occ_bit, lemma_set_ptr,
    lemma_occ_bit_nonzero};
use crate::path::OctantPath;
use vstd::set_lib::set_int_range;
use vstd::set_lib::lemma_int_range;
use vstd::set_lib::lemma_len_subset;
use vstd::set::axiom_set_insert_len;

/// Index of the root descriptor: the reserved last slot of the table.
pub open spec fn root_index(t: Seq<u32>) -> int {
    t.len() - 1
}

/// The depth-1 slots (octants of the root, table indices 0..8) that
/// already own an allocated child block.
pub open spec fn allocated_children(t: Seq<u32>) -> Set<int> {
    Set::new(|i: int| 0 <= i < 8 && child_ptr(t[i]) != 0)
}

/// The walk that makes a voxel's path reachable: the root descriptor has
/// the coarse occupancy bit; the depth-1 descriptor in the implicit
/// root-children block at base 0 has the mid bit and a child block; and
/// the leaf descriptor in that block has the fine bit.
pub open spec fn reaches(t: Seq<u32>, p: OctantPath) -> bool {
    &&& occ_bit(t[root_index(t)], p.coarse as u32)
    &&& occ_bit(t[p.coarse as int], p.mid as u32)
    &&& child_ptr(t[p.coarse as int]) != 0
    &&& occ_bit(t[child_ptr(t[p.coarse as int]) + p.mid as u32], p.fine as u32)
}

/// The depth-1 slots form a subset of `{0, .., 7}`, so at most 8 child
/// blocks are ever allocated.
pub proof fn lemma_allocated_children_card(t: Seq<u32>)
    ensures
        allocated_children(t).finite(),
        allocated_children(t).len() <= 8,
{
    lemma_int_range(0, 8);
    assert(allocated_children(t).subset_of(set_int_range(0, 8)));
    lemma_len_subset(allocated_children(t), set_int_range(0, 8));
}

/// Distinct 8-aligned block bases give disjoint blocks: slots of different
/// blocks never share a table address.
proof fn lemma_distinct_blocks(b1: int, b2: int, i: int, j: int)
    requires
        b1 % 8 == 0,
        b2 % 8 == 0,
        b1 != b2,
        0 <= i < 8,
        0 <= j < 8,
    ensures
        b1 + i != b2 + j,
{
    if b1 + i == b2 + j {
        assert((b1 - b2) % 8 == 0) by (nonlinear_arith)
            requires b1 % 8 == 0 && b2 % 8 == 0;
        assert(-8 < b1 - b2 < 8);
        assert(b1 == b2);
    }
}

/// A fixed-capacity table of descriptor words plus the cursor of the bump
/// allocator that hands out 8-word child blocks.
///
/// The last slot is the root descriptor; the root's children live in the
/// implicit block at base 0. `cursor` is the base address of the most
/// recently allocated child block, or 0 while none has been allocated;
/// blocks are handed out at 8, 16, ... and never reclaimed.
pub struct DescriptorTable {
    pub words: Vec<u32>,
    pub cursor: u32,
}

/// The invariant every table operation preserves, over the raw word
/// sequence and the cursor.
///
/// The cursor is a multiple of 8, counts exactly the allocated child
/// blocks, and every allocated block lies strictly below the root slot.
/// Depth-1 descriptors point only at allocated blocks, no two at the same
/// one; words inside allocated blocks are leaf descriptors (child pointer
/// zero); words beyond the last allocated block are still zero; and an
/// occupancy bit is set on the way to every non-empty descriptor, so that
/// a walk from the root reaches everything that was ever merged in.
pub open spec fn table_wf(t: Seq<u32>, cur: int) -> bool {
    &&& 9 <= t.len() <= 0x0100_0000
    &&& cur % 8 == 0
    &&& (cur == 0 || (8 <= cur && cur + 8 <= root_index(t)))
    &&& cur == 8 * allocated_children(t).len()
    &&& child_ptr(t[root_index(t)]) == 0
    &&& (forall|i: int| 0 <= i < 8 ==> child_ptr(#[trigger] t[i]) == 0 || (
        8 <= child_ptr(t[i]) <= cur && child_ptr(t[i]) % 8 == 0))
    &&& (forall|i: int, j: int|
        0 <= i < 8 && 0 <= j < 8 && i != j && child_ptr(#[trigger] t[i]) != 0
            ==> child_ptr(t[i]) != child_ptr(#[trigger] t[j]))
    &&& (forall|a: int| 8 <= a < cur + 8 ==> child_ptr(#[trigger] t[a]) == 0)
    &&& (forall|a: int| cur + 8 <= a < root_index(t) ==> #[trigger] t[a] == 0)
    &&& (forall|i: int| 0 <= i < 8 && #[trigger] t[i] != 0 ==> occ_bit(t[root_index(t)], i as u32))
    &&& (forall|i: int, j: u32|
        0 <= i < 8 && j < 8 && child_ptr(t[i]) != 0
            && #[trigger] t[child_ptr(t[i]) + j] != 0 ==> occ_bit(t[i], j))
}

impl DescriptorTable {
    /// The invariant every operation preserves.
    pub open spec fn wf(self) -> bool {
        table_wf(self.words@, self.cursor as int)
    }

    /// An all-zero table of `capacity` words with a zero cursor: no
    /// occupancy, no allocated blocks, nothing reachable.
    pub fn new(capacity: usize) -> (t: DescriptorTable)
        requires
            9 <= capacity <= 0x0100_0000,
        ensures
            t.wf(),
            t.words@.len() == capacity,
            t.cursor == 0,
            forall|i: int| 0 <= i < capacity ==> t.words@[i] == 0,
            forall|p: OctantPath| p.wf() ==> !reaches(t.words@, p),
    {
        let words: Vec<u32> = vec![0u32; capacity];
        let t = DescriptorTable { words, cursor: 0 };
        proof {
            lemma_zero_word();
            assert(allocated_children(t.words@) =~= Set::<int>::empty());
            assert forall|p: OctantPath| p.wf() implies !reaches(t.words@, p) by {
                assert(t.words@[root_index(t.words@)] == 0);
            }
        }
        t
    }

    /// The Descriptor Table Builder's per-voxel step: make one octant path
    /// reachable from the root.
    ///
    /// Walks the path top-down: merges the coarse mask into the root
    /// descriptor, the mid mask into the depth-1 descriptor at slot
    /// `coarse` of the implicit root-children block, allocating that
    /// node's child block the first time it is visited with none, and the
    /// fine mask into the leaf descriptor at slot `mid` of that block. No
    /// block is allocated at the leaf scale.
    ///
    /// Succeeds exactly when the path needs no new block or one more block
    /// still fits below the root slot; on failure the table is left
    /// untouched. On success the set of reachable paths grows by exactly
    /// this path, the cursor advances by 8 exactly on a first touch, and
    /// re-inserting an already reachable path changes nothing at all.
    pub fn insert(&mut self, p: &OctantPath) -> (r: Result<(), ()>)
        requires
            old(self).wf(),
            p.wf(),
        ensures
            final(self).wf(),
            final(self).words@.len() == old(self).words@.len(),
            r is Ok <==> (child_ptr(old(self).words@[p.coarse as int]) != 0
                || old(self).cursor + 16 < old(self).words@.len()),
            r is Err ==> final(self).words@ == old(self).words@
                && final(self).cursor == old(self).cursor,
            r is Ok ==> forall|q: OctantPath| q.wf()
                ==> (reaches(final(self).words@, q) <==> (reaches(old(self).words@, q) || q == *p)),
            r is Ok ==> forall|c: u8|
                c < 8 ==> (#[trigger] occ_bit(final(self).words@[root_index(final(self).words@)],
                    c as u32) <==> (occ_bit(old(self).words@[root_index(old(self).words@)],
                        c as u32) || c == p.coarse)),
            r is Ok ==> forall|c: u8, m: u8|
                c < 8 && m < 8 ==> (#[trigger] occ_bit(final(self).words@[c as int], m as u32)
                    <==> (occ_bit(old(self).words@[c as int], m as u32)
                        || (c == p.coarse && m == p.mid))),
            r is Ok ==> forall|c: u8|
                c < 8 ==> (#[trigger] child_ptr(final(self).words@[c as int]) != 0
                    <==> (child_ptr(old(self).words@[c as int]) != 0 || c == p.coarse)),
            r is Ok ==> final(self).cursor == (
            if child_ptr(old(self).words@[p.coarse as int]) != 0 {
                old(self).cursor as int
            } else {
                old(self).cursor + 8
            }),
            old(self).cursor <= final(self).cursor,
            reaches(old(self).words@, *p) ==> final(self).words@ == old(self).words@
                && final(self).cursor == old(self).cursor,
    {
        let ghost t0 = self.words@;
        let ghost cur0 = self.cursor as int;
        let ghost rooti = root_index(t0);

        let len = self.words.len();
        let root = len - 1;
        let c = p.coarse as usize;
        let m = p.mid as usize;

        let d1 = self.words[c];
        if d1 >> 8 == 0 && !(self.cursor + 16 < len as u32) {
            return Err(());
        }

        // Root: merge the coarse occupancy mask.
        let droot = self.words[root];
        self.words[root] = droot | (1u32 << (p.coarse as u32));
        proof {
            lemma_or_occ_bit(droot, p.coarse as u32);
        }

        // Depth 1: merge the mid mask; allocate a child block on first touch.
        let mask_m = 1u32 << (p.mid as u32);
        let merged = d1 | mask_m;
        proof {
            lemma_or_occ_bit(d1, p.mid as u32);
        }
        let base: u32;
        if d1 >> 8 == 0 {
            let nb = self.cursor + 8;
            self.cursor = nb;
            proof {
                lemma_set_ptr(merged, nb);
            }
            self.words[c] = merged | (nb << 8);
            base = nb;
        } else {
            self.words[c] = merged;
            base = d1 >> 8;
        }
        let ghost b = base as int;

        // Leaf: merge the fine mask; no child block at the leaf scale.
        let a = base as usize + m;
        let dl = self.words[a];
        self.words[a] = dl | (1u32 << (p.fine as u32));
        let ghost t3 = self.words@;
        proof {
            lemma_or_occ_bit(dl, p.fine as u32);
        }

        proof {
            let cur = self.cursor as int;
            let ci = p.coarse as int;
            let mi = p.mid as int;
            let ai = b + mi;
            lemma_zero_word();

            // The three updated slots are pairwise distinct, so the final
            // table is t0 changed at exactly rooti, ci and ai.
            assert(rooti == t0.len() - 1);
            assert(8 <= b && b + 8 <= rooti && b % 8 == 0 && b <= cur);
            assert(ci < 8 && 8 <= ai && ai < rooti);
            assert(t3[rooti] == droot | (1u32 << (p.coarse as u32)));
            assert(t3[ai] == dl | (1u32 << (p.fine as u32)));
            assert(dl == t0[ai]);
            assert(forall|k: int|
                0 <= k < t0.len() && k != rooti && k != ci && k != ai ==> #[trigger] t3[k] == t0[k]);

            // Allocation bookkeeping: the set of depth-1 slots with a
            // child block gains exactly `ci` on a first touch.
            lemma_allocated_children_card(t0);
            if child_ptr(d1) == 0 {
                assert(allocated_children(t3) =~= allocated_children(t0).insert(ci));
                axiom_set_insert_len(allocated_children(t0), ci);
                assert(t0[ai] == 0);
            } else {
                assert(allocated_children(t3) =~= allocated_children(t0));
            }

            // The invariant holds for the new table.
            assert forall|i: int| 0 <= i < 8 implies child_ptr(#[trigger] t3[i]) == 0 || (
                8 <= child_ptr(t3[i]) <= cur && child_ptr(t3[i]) % 8 == 0) by {
                if i != ci {
                    assert(t3[i] == t0[i]);
                }
            }
            assert forall|i: int, j: int|
                0 <= i < 8 && 0 <= j < 8 && i != j && child_ptr(#[trigger] t3[i]) != 0 implies
                child_ptr(t3[i]) != child_ptr(#[trigger] t3[j]) by {
                if i != ci {
                    assert(t3[i] == t0[i]);
                }
                if j != ci {
                    assert(t3[j] == t0[j]);
                }
            }
            assert forall|k: int| 8 <= k < cur + 8 implies child_ptr(#[trigger] t3[k]) == 0 by {
                if k != ai {
                    assert(t3[k] == t0[k]);
                    if k >= cur0 + 8 {
                        assert(t0[k] == 0);
                    }
                }
            }
            assert forall|k: int| cur + 8 <= k < rooti implies #[trigger] t3[k] == 0 by {
                assert(t3[k] == t0[k]);
            }
            assert forall|i: int| 0 <= i < 8 && #[trigger] t3[i] != 0 implies
                occ_bit(t3[rooti], i as u32) by {
                if i != ci {
                    assert(t3[i] == t0[i]);
                    assert(occ_bit(t0[rooti], i as u32));
                }
            }
            assert forall|i: int, j: u32|
                0 <= i < 8 && j < 8 && child_ptr(t3[i]) != 0
                    && #[trigger] t3[child_ptr(t3[i]) + j] != 0 implies occ_bit(t3[i], j) by {
                if i != ci {
                    assert(t3[i] == t0[i]);
                    let bi = child_ptr(t0[i]) as int;
                    assert(bi != b);
                    lemma_distinct_blocks(bi, b, j as int, mi);
                    assert(t3[bi + j] == t0[bi + j]);
                } else {
                    if j != p.mid as u32 {
                        assert(b + j != ai);
                        assert(t3[b + j] == t0[b + j]);
                        if child_ptr(d1) == 0 {
                            assert(t0[b + j] == 0);
                        } else {
                            if t0[b + j] != 0 {
                                assert(occ_bit(t0[ci], j));
                            }
                        }
                    }
                }
            }
            assert(self.wf());

            // The reachable paths are exactly the old ones plus this path.
            assert forall|q: OctantPath| q.wf() implies
                (reaches(t3, q) <==> (reaches(t0, q) || q == *p)) by {
                let qc = q.coarse as int;
                let qm = q.mid as u32;
                let qf = q.fine as u32;
                if qc != ci {
                    assert(t3[qc] == t0[qc]);
                    assert(occ_bit(t3[rooti], q.coarse as u32) == occ_bit(t0[rooti],
                        q.coarse as u32));
                    let bq = child_ptr(t0[qc]) as int;
                    if bq != 0 {
                        assert(bq != b);
                        lemma_distinct_blocks(bq, b, qm as int, mi);
                        assert(t3[bq + qm] == t0[bq + qm]);
                    }
                    assert(q != *p);
                } else {
                    // The walk of q shares the depth-1 node with p.
                    assert(occ_bit(t3[rooti], p.coarse as u32));
                    assert(child_ptr(t3[ci]) == b);
                    if qm != p.mid as u32 {
                        assert(occ_bit(t3[ci], qm) == occ_bit(t0[ci], qm));
                        assert(b + qm != ai);
                        assert(t3[b + qm] == t0[b + qm]);
                        if child_ptr(d1) == 0 {
                            assert(t0[b + qm] == 0);
                            assert(!reaches(t0, q));
                            assert(!reaches(t3, q));
                        } else {
                            if occ_bit(t0[b + qm], qf) {
                                lemma_occ_bit_nonzero(t0[b + qm], qf);
                                assert(occ_bit(t0[ci], qm));
                                lemma_occ_bit_nonzero(t0[ci], qm);
                                assert(occ_bit(t0[rooti], q.coarse as u32));
                            }
                        }
                    } else if qf != p.fine as u32 {
                        assert(occ_bit(t3[ci], qm));
                        assert(occ_bit(t3[ai], qf) == occ_bit(t0[ai], qf));
                        if child_ptr(d1) == 0 {
                            assert(t0[ai] == 0);
                            assert(!reaches(t0, q));
                            assert(!reaches(t3, q));
                        } else {
                            if occ_bit(t0[ai], qf) {
                                lemma_occ_bit_nonzero(t0[ai], qf);
                                assert(occ_bit(t0[ci], p.mid as u32));
                                lemma_occ_bit_nonzero(t0[ci], p.mid as u32);
                                assert(occ_bit(t0[rooti], q.coarse as u32));
                            }
                        }
                    } else {
                        assert(q == *p);
                        assert(occ_bit(t3[ci], p.mid as u32));
                        assert(occ_bit(t3[ai], p.fine as u32));
                        assert(reaches(t3, q));
                    }
                }
            }

            // Per-level exactness: the occupancy bit of each level gains
            // exactly the inserted octant, and only the path's depth-1
            // node can gain a child block.
            assert forall|c: u8| c < 8 implies (#[trigger] occ_bit(t3[rooti], c as u32)
                <==> (occ_bit(t0[rooti], c as u32) || c == p.coarse)) by {
                assert(t3[rooti] == droot | (1u32 << (p.coarse as u32)));
            }
            assert forall|c: u8, m: u32| c < 8 && m < 8 implies (#[trigger] occ_bit(t3[c as int],
                m) <==> (occ_bit(t0[c as int], m) || (c == p.coarse && m == p.mid as u32))) by {
                if c as int != ci {
                    assert(t3[c as int] == t0[c as int]);
                }
            }
            assert forall|c: u8| c < 8 implies (#[trigger] child_ptr(t3[c as int]) != 0
                <==> (child_ptr(t0[c as int]) != 0 || c == p.coarse)) by {
                if c as int != ci {
                    assert(t3[c as int] == t0[c as int]);
                }
            }

            // Re-inserting a reachable path rewrites every word with its
            // own value.
            if reaches(t0, *p) {
                assert(t3 =~= t0);
            }
        }

        Ok(())
    }
}

} // verus!

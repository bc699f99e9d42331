use vstd::prelude::*;

verus! {

// The octree has three encoded levels, one per scale in the inclusive
// range `LOWEST_SCALE ..= TOP_SCALE`. A scale names the number of low bits
// of a coordinate's 32-bit float pattern that quantization clears at that
// level; larger scale means a coarser cell.

/// Finest non-leaf scale: descriptors at this scale are leaf descriptors,
/// their occupancy bits denote solid leaf voxels.
pub const LOWEST_SCALE: u32 = 21;

/// The scale between the finest and the coarsest one.
pub const MID_SCALE: u32 = 22;

/// Coarsest scale: the scale of the root's direct children.
pub const TOP_SCALE: u32 = 23;

/// One voxel coordinate, one 32-bit IEEE-754 bit pattern per axis.
///
/// The builder reads coordinates only through their float bit patterns:
/// quantization clears low bits of a pattern, and the octant test compares
/// patterns, which for non-negative finite values orders exactly as the
/// encoded float values do. A caller holding `f32` coordinates constructs
/// this with `f32::to_bits` on each axis.
#[derive(Clone, Copy, Debug, PartialEq, Eq, Structural)]
pub struct Voxel {
    pub x: u32,
    pub y: u32,
    pub z: u32,
}

/// An axis value is in range when its bit pattern encodes a non-negative
/// finite float: sign bit clear and exponent field not all ones. Patterns
/// outside this range (negative values, infinities, NaNs) do not order as
/// the floats they encode, so quantizing them would silently pick a wrong
/// octant; the builder rejects them instead.
pub open spec fn axis_in_range(b: u32) -> bool {
    b < 0x7f80_0000
}

/// All three axes of the voxel are in range.
pub open spec fn voxel_in_range(v: Voxel) -> bool {
    axis_in_range(v.x) && axis_in_range(v.y) && axis_in_range(v.z)
}

/// The cell boundary ("prime") of axis value `b` at `scale`: the pattern
/// with its low `scale` bits cleared by a right-shift followed by an equal
/// left-shift.
pub open spec fn snap(b: u32, scale: u32) -> u32 {
    (b >> scale) << scale
}

/// The per-axis octant bit at `scale`: set when the value lies strictly
/// above the cell boundary at that scale.
pub open spec fn axis_above(b: u32, scale: u32) -> bool {
    b > snap(b, scale)
}

/// The 3-bit octant index built from the three per-axis bits:
/// bit 0 = x, bit 1 = y, bit 2 = z.
pub open spec fn octant_index(x: bool, y: bool, z: bool) -> int {
    (if x { 1u32 } else { 0u32 }) + (if y { 2u32 } else { 0u32 }) + (if z { 4u32 } else { 0u32 })
}

/// The voxel's octant at the finest scale, computed from the raw
/// coordinate patterns.
pub open spec fn fine_octant(v: Voxel) -> int {
    octant_index(
        axis_above(v.x, LOWEST_SCALE),
        axis_above(v.y, LOWEST_SCALE),
        axis_above(v.z, LOWEST_SCALE),
    )
}

/// The voxel's octant at the middle scale. The walk is self-similar: each
/// axis is replaced by its boundary at the previous, finer scale before
/// the next octant is read.
pub open spec fn mid_octant(v: Voxel) -> int {
    octant_index(
        axis_above(snap(v.x, LOWEST_SCALE), MID_SCALE),
        axis_above(snap(v.y, LOWEST_SCALE), MID_SCALE),
        axis_above(snap(v.z, LOWEST_SCALE), MID_SCALE),
    )
}

/// The voxel's octant at the coarsest scale.
pub open spec fn coarse_octant(v: Voxel) -> int {
    octant_index(
        axis_above(snap(snap(v.x, LOWEST_SCALE), MID_SCALE), TOP_SCALE),
        axis_above(snap(snap(v.y, LOWEST_SCALE), MID_SCALE), TOP_SCALE),
        axis_above(snap(snap(v.z, LOWEST_SCALE), MID_SCALE), TOP_SCALE),
    )
}

/// A voxel's per-scale octant path, ordered coarsest first: the octant
/// chosen at the top scale, at the middle scale, and at the finest (leaf)
/// scale.
#[derive(Clone, Copy, Debug, PartialEq, Eq, Structural)]
pub struct OctantPath {
    pub coarse: u8,
    pub mid: u8,
    pub fine: u8,
}

impl OctantPath {
    /// Each entry names one of the 8 octants.
    pub open spec fn wf(self) -> bool {
        self.coarse < 8 && self.mid < 8 && self.fine < 8
    }
}

/// The full path of a voxel, as the resolver computes it.
pub open spec fn path_of(v: Voxel) -> OctantPath {
    OctantPath {
        coarse: coarse_octant(v) as u8,
        mid: mid_octant(v) as u8,
        fine: fine_octant(v) as u8,
    }
}

/// Per-axis quantization step at one scale: clear the low `scale` bits of
/// the pattern and report whether the original lies strictly above the
/// resulting boundary.
fn axis_step(b: u32, scale: u32) -> (r: (u32, bool))
    requires
        scale < 32,
    ensures
        r.0 == snap(b, scale),
        r.1 == axis_above(b, scale),
{
    let prime = (b >> scale) << scale;
    (prime, b > prime)
}

/// Combine the three per-axis bits into an octant index.
fn octant_of(x: bool, y: bool, z: bool) -> (i: u8)
    ensures
        i == octant_index(x, y, z),
        i < 8,
{
    let mut i: u8 = 0;
    if x {
        i += 1;
    }
    if y {
        i += 2;
    }
    if z {
        i += 4;
    }
    i
}

impl Voxel {
    /// All three axis patterns encode non-negative finite values.
    pub fn in_range(&self) -> (r: bool)
        ensures
            r == voxel_in_range(*self),
    {
        self.x < 0x7f80_0000 && self.y < 0x7f80_0000 && self.z < 0x7f80_0000
    }

    /// The Octant Path Resolver: for each scale from finest to coarsest,
    /// compute which of the 8 octants the coordinate falls into at that
    /// scale, replacing each axis by its cell boundary before moving to
    /// the next, coarser scale.
    pub fn octant_path(&self) -> (p: OctantPath)
        ensures
            p == path_of(*self),
            p.wf(),
    {
        let (x1, ax) = axis_step(self.x, LOWEST_SCALE);
        let (y1, ay) = axis_step(self.y, LOWEST_SCALE);
        let (z1, az) = axis_step(self.z, LOWEST_SCALE);
        let fine = octant_of(ax, ay, az);

        let (x2, bx) = axis_step(x1, MID_SCALE);
        let (y2, by) = axis_step(y1, MID_SCALE);
        let (z2, bz) = axis_step(z1, MID_SCALE);
        let mid = octant_of(bx, by, bz);

        let (_, cx) = axis_step(x2, TOP_SCALE);
        let (_, cy) = axis_step(y2, TOP_SCALE);
        let (_, cz) = axis_step(z2, TOP_SCALE);
        let coarse = octant_of(cx, cy, cz);

        OctantPath { coarse, mid, fine }
    }
}

} // verus!

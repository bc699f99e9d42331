use vstd::prelude::*;

verus! {

/// One corner of the octree's world-space box, one signed value per axis.
///
/// The fields are wide enough to hold any origin plus any edge length
/// without overflow.
#[derive(Clone, Copy, Debug, PartialEq, Eq, Structural)]
pub struct Corner {
    pub x: i64,
    pub y: i64,
    pub z: i64,
}

/// The grid origin of the octree: its lower corner, one integer per axis.
#[derive(Clone, Copy, Debug, PartialEq, Eq, Structural)]
pub struct Origin {
    pub x: i32,
    pub y: i32,
    pub z: i32,
}

/// The axis-aligned min/max box of the octree's addressable region.
///
/// Derived once from an origin and an edge length and never mutated
/// afterwards; it is carried alongside the descriptor table for any
/// downstream consumer that needs world-space extents.
#[derive(Clone, Copy, Debug, PartialEq, Eq, Structural)]
pub struct Bounds {
    pub min: Corner,
    pub max: Corner,
}

/// The box a given origin and edge length describe: min is the origin,
/// max adds the edge length on every axis.
pub open spec fn bounds_of(origin: Origin, size: u32) -> Bounds {
    Bounds {
        min: Corner { x: origin.x as i64, y: origin.y as i64, z: origin.z as i64 },
        max: Corner {
            x: (origin.x + size) as i64,
            y: (origin.y + size) as i64,
            z: (origin.z + size) as i64,
        },
    }
}

impl Bounds {
    /// `min` is the origin itself; `max` adds the edge length on every axis.
    ///
    /// A pure function of its arguments with no failure modes: every origin
    /// and every edge length yield a box whose edge is exactly `size` on
    /// each axis.
    pub fn new(origin: Origin, size: u32) -> (b: Bounds)
        ensures
            b == bounds_of(origin, size),
            b.min.x == origin.x,
            b.min.y == origin.y,
            b.min.z == origin.z,
            b.max.x == origin.x + size,
            b.max.y == origin.y + size,
            b.max.z == origin.z + size,
            b.max.x - b.min.x == size,
            b.max.y - b.min.y == size,
            b.max.z - b.min.z == size,
    {
        Bounds {
            min: Corner { x: origin.x as i64, y: origin.y as i64, z: origin.z as i64 },
            max: Corner {
                x: origin.x as i64 + size as i64,
                y: origin.y as i64 + size as i64,
                z: origin.z as i64 + size as i64,
            },
        }
    }
}

} // verus!

//! Sparse voxel octree descriptor builder.
//!
//! Converts a batch of leaf voxel coordinates into a compact, fixed-capacity,
//! pointer-free binary encoding of an octree: a flat table of descriptor
//! words, each packing an 8-bit child-occupancy mask with a child-block base
//! address, plus the world-space bounds of the addressable region and the
//! cursor of a bump allocator that hands out 8-word child blocks.

pub mod bounds;
pub mod descriptor;
pub mod path;
pub mod table;
pub mod octree;
pub mod laws;

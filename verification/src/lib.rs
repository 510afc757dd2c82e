//! Data structures and verified algorithms for preparing meshes and armatures exported from
//! Blender for a rendering pipeline.
//!
//! Floating point values are carried through the library as their IEEE-754 bit patterns
//! (`u32`), which keeps every algorithm here exact: copying, reordering and negating a float
//! are all operations on its bits.
use vstd::prelude::*;

pub mod armature;
pub mod export;
pub mod float_bits;
pub mod mesh;
pub mod sorting;
pub mod str_map;

verus! {

} // verus!

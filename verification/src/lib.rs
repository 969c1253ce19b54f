//! A sparse voxel octree over an integer lattice.
//!
//! The tree recursively subdivides a box into eight octants, keeps a node only
//! where a caller-supplied classifier finds volume, packs leaf colour and
//! occupancy into one 32-bit word, and exports its leaves as an indexed
//! triangle mesh.

pub mod lattice;
pub mod packing;
pub mod geometry;
pub mod fill;
pub mod sphere;
pub mod octree;
pub mod mesh;
pub mod generate;
pub mod laws;

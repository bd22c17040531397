//! A chunked voxel world: voxel registry, chunk storage with padded
//! neighbour reads, streaming around an observer, procedural terrain and
//! feature generation, and the bookkeeping that feeds greedy meshing.

pub mod voxel;
pub mod coords;
pub mod chunk;
pub mod chunk_map;
pub mod streaming;
pub mod feature;
pub mod biomes;
pub mod generation;
pub mod pipeline;
pub mod meshing;

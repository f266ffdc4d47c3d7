//! Chunk meshing and streaming core of a block-world renderer.
//!
//! A world is a grid of chunks; each chunk owns a dense voxel grid of
//! material ids.  The library turns a voxel grid into a minimal set of
//! textured quads (greedy meshing), keeps the set of active chunks and
//! their current meshes, and plans which chunk coordinates to load or
//! evict as the viewer moves (spiral streaming).

use vstd::prelude::*;

pub mod block;
pub mod chunk;
pub mod graphics;
pub mod mesh;
pub mod mesher;
pub mod scheduler;
pub mod store;
pub mod terrain;

verus! {

/// The side length, in blocks, of a chunk along the x and z axes.
pub const CHUNK_SIZE: usize = 16;

/// The height, in blocks, of a chunk along the y axis.
pub const CHUNK_HEIGHT: usize = 256;

/// The number of columns of a chunk.
pub const CHUNK_AREA: usize = 256;

/// The number of blocks of a chunk.
pub const CHUNK_VOLUME: usize = 65536;

} // verus!

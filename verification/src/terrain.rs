//! Terrain generation.
//!
//! A terrain generator fills a freshly created chunk from a heightmap:
//! one integer height per column, solid material from the bottom up to
//! that height, air above.  The heightmap itself comes from the
//! embedding application — typically 2D coherent noise sampled per
//! column, normalized to `[0, 1]` and scaled to a maximum height; the
//! fill from any given heightmap is what the library does and proves.

use vstd::prelude::*;
use crate::block::Materials;
use crate::chunk::{Chunk, filled_blocks};

verus! {

/// The plain terrain shape: every column is solid grass from the
/// bottom of the chunk up to its heightmap entry.
pub struct SimpleTerrainGen {
    _private: (),
}

impl SimpleTerrainGen {
    /// Creates the generator.
    pub fn new() -> SimpleTerrainGen {
        SimpleTerrainGen { _private: () }
    }

    /// Generates smooth terrain in a chunk from a heightmap: each
    /// column becomes solid grass from the bottom up to the column's
    /// height, and the chunk is marked dirty for remeshing.
    pub fn gen_smooth_terrain(&self, chunk: &mut Chunk, height_map: &Vec<i32>)
        requires
            old(chunk).wf(),
            height_map@.len() == old(chunk).spec_grid().spec_width() * old(
                chunk,
            ).spec_grid().spec_width(),
        ensures
            final(chunk).wf(),
            final(chunk).spec_loc() == old(chunk).spec_loc(),
            final(chunk).spec_grid().spec_width() == old(chunk).spec_grid().spec_width(),
            final(chunk).spec_grid().spec_height() == old(chunk).spec_grid().spec_height(),
            final(chunk).spec_grid().spec_blocks() == filled_blocks(
                old(chunk).spec_grid().spec_blocks(),
                old(chunk).spec_grid().spec_width(),
                height_map@,
                Materials::Grass.spec_id(),
            ),
            final(chunk).spec_dirty(),
    {
        chunk.fill_columns(height_map, Materials::Grass.id());
    }
}

} // verus!

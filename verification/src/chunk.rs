//! Chunks and their dense voxel grids.
//!
//! A chunk is the unit of loading, meshing and streaming: a fixed-size
//! 3D region of blocks identified by a 2D chunk-grid coordinate.  Its
//! blocks live in one flat buffer of material ids; out-of-range queries
//! answer "no block" (air), which makes neighbour lookups at the chunk
//! boundary safe.

use vstd::prelude::*;
use crate::block::Material;

verus! {

/// The largest chunk side length the library accepts.  Together with
/// [`MAX_GRID_HEIGHT`] it keeps every buffer index of a chunk mesh,
/// including the 32-bit triangle indices, within machine bounds.
pub const MAX_GRID_SIZE: usize = 256;

/// The largest chunk height the library accepts.
pub const MAX_GRID_HEIGHT: usize = 256;

/// The position of a chunk on the chunk grid (not in world units).
#[derive(Copy, Clone, Eq, PartialEq, Structural, Debug)]
pub struct ChunkCoord {
    /// The chunk-grid position along the world x axis.
    pub x: i32,
    /// The chunk-grid position along the world z axis.
    pub z: i32,
}

/// A dense `width x height x width` grid of material ids, the raw data
/// the meshing algorithm consumes.  Block `(x, y, z)` lives at flat
/// index `width*width*y + width*z + x`.
pub struct VoxelGrid {
    width: usize,
    height: usize,
    blocks: Vec<Material>,
}

impl VoxelGrid {
    /// The side length of the grid along the x and z axes.
    pub closed spec fn spec_width(&self) -> int {
        self.width as int
    }

    /// The height of the grid along the y axis.
    pub closed spec fn spec_height(&self) -> int {
        self.height as int
    }

    /// The blocks of the grid in flat index order.
    pub closed spec fn spec_blocks(&self) -> Seq<Material> {
        self.blocks@
    }

    /// Well-formedness: the dimensions are within capacity and the flat
    /// buffer holds exactly one material id per cell.
    pub open spec fn wf(&self) -> bool {
        &&& 1 <= self.spec_width() <= MAX_GRID_SIZE
        &&& 1 <= self.spec_height() <= MAX_GRID_HEIGHT
        &&& self.spec_blocks().len() == self.spec_width() * self.spec_width() * self.spec_height()
    }

    /// Whether `(x, y, z)` addresses a cell of the grid.
    pub open spec fn in_bounds(&self, x: int, y: int, z: int) -> bool {
        &&& 0 <= x < self.spec_width()
        &&& 0 <= y < self.spec_height()
        &&& 0 <= z < self.spec_width()
    }

    /// The flat index of the in-bounds cell `(x, y, z)`.
    pub open spec fn spec_index(&self, x: int, y: int, z: int) -> int {
        self.spec_width() * self.spec_width() * y + self.spec_width() * z + x
    }

    /// The material at `(x, y, z)`, where every out-of-range position
    /// reads as air.
    pub open spec fn spec_block(&self, x: int, y: int, z: int) -> Material {
        if self.in_bounds(x, y, z) {
            self.spec_blocks()[self.spec_index(x, y, z)]
        } else {
            crate::block::AIR
        }
    }

    /// The flat index of an in-bounds cell stays within the buffer.
    pub proof fn lemma_index_in_range(&self, x: int, y: int, z: int)
        requires
            self.wf(),
            self.in_bounds(x, y, z),
        ensures
            0 <= self.spec_index(x, y, z) < self.spec_blocks().len(),
            self.spec_index(x, y, z) == self.spec_width() * self.spec_width() * y
                + self.spec_width() * z + x,
    {
        let w = self.spec_width();
        let h = self.spec_height();
        assert(w * w * y + w * z + x < w * w * h) by (nonlinear_arith)
            requires
                1 <= w,
                0 <= x < w,
                0 <= z < w,
                0 <= y < h,
        ;
        assert(0 <= w * w * y + w * z + x) by (nonlinear_arith)
            requires
                1 <= w,
                0 <= x,
                0 <= z,
                0 <= y,
        ;
    }

    /// Creates a grid of the given dimensions filled with air.
    pub fn new(width: usize, height: usize) -> (r: VoxelGrid)
        requires
            1 <= width <= MAX_GRID_SIZE,
            1 <= height <= MAX_GRID_HEIGHT,
        ensures
            r.wf(),
            r.spec_width() == width,
            r.spec_height() == height,
            r.spec_blocks() == Seq::new((width * width * height) as nat,
                |t: int| crate::block::AIR),
            forall|x: int, y: int, z: int| r.spec_block(x, y, z) == crate::block::AIR,
    {
        proof {
            assert(width * width <= 0x10000) by (nonlinear_arith)
                requires
                    width <= 256,
            ;
            assert(width * width * height <= 0x1000000) by (nonlinear_arith)
                requires
                    width <= 256,
                    height <= 256,
            ;
        }
        let volume: usize = width * width * height;
        let mut blocks: Vec<Material> = Vec::new();
        let mut k: usize = 0;
        while k < volume
            invariant
                0 <= k <= volume,
                blocks@.len() == k,
                forall|j: int| 0 <= j < k ==> blocks@[j] == crate::block::AIR,
            decreases volume - k,
        {
            blocks.push(crate::block::AIR);
            k = k + 1;
        }
        let r = VoxelGrid { width, height, blocks };
        proof {
            assert forall|x: int, y: int, z: int|
                r.spec_block(x, y, z) == crate::block::AIR
            by {
                if r.in_bounds(x, y, z) {
                    r.lemma_index_in_range(x, y, z);
                }
            }
            assert(r.spec_blocks() =~= Seq::new((width * width * height) as nat,
                |t: int| crate::block::AIR));
        }
        r
    }

    /// The side length of the grid along the x and z axes.
    pub fn width(&self) -> (r: usize)
        ensures
            r == self.spec_width(),
    {
        self.width
    }

    /// The height of the grid along the y axis.
    pub fn height(&self) -> (r: usize)
        ensures
            r == self.spec_height(),
    {
        self.height
    }

    /// The flat index of a given position, or `None` if the position is
    /// out of range.  Negative positions are allowed so that neighbour
    /// lookups can step across the chunk boundary.
    fn index_of(&self, x: i32, y: i32, z: i32) -> (r: Option<usize>)
        requires
            self.wf(),
        ensures
            match r {
                Some(i) => self.in_bounds(x as int, y as int, z as int)
                    && i == self.spec_index(x as int, y as int, z as int)
                    && i < self.spec_blocks().len(),
                None => !self.in_bounds(x as int, y as int, z as int),
            },
    {
        if !(x >= 0 && y >= 0 && z >= 0
            && (x as usize) < self.width
            && (y as usize) < self.height
            && (z as usize) < self.width)
        {
            return None;
        }
        proof {
            self.lemma_index_in_range(x as int, y as int, z as int);
            assert(self.width * self.width <= 0x10000) by (nonlinear_arith)
                requires
                    self.width <= 256,
            ;
            assert(self.width * self.width * (y as usize) <= 0x10000 * 256) by (nonlinear_arith)
                requires
                    self.width * self.width <= 0x10000,
                    y as usize <= 256,
            ;
            assert(self.width * (z as usize) <= 0x10000) by (nonlinear_arith)
                requires
                    self.width <= 256,
                    z as usize <= 256,
            ;
        }
        Some(self.width * self.width * (y as usize) + self.width * (z as usize) + (x as usize))
    }

    /// The material at a given position, or `None` if the position is
    /// out of range.
    pub fn block(&self, x: i32, y: i32, z: i32) -> (r: Option<Material>)
        requires
            self.wf(),
        ensures
            match r {
                Some(m) => self.in_bounds(x as int, y as int, z as int)
                    && m == self.spec_block(x as int, y as int, z as int),
                None => !self.in_bounds(x as int, y as int, z as int),
            },
    {
        match self.index_of(x, y, z) {
            Some(i) => Some(self.blocks[i]),
            None => None,
        }
    }

    /// The material at a given position, where every out-of-range
    /// position reads as air.
    pub fn block_or_air(&self, x: i32, y: i32, z: i32) -> (r: Material)
        requires
            self.wf(),
        ensures
            r == self.spec_block(x as int, y as int, z as int),
    {
        match self.block(x, y, z) {
            Some(m) => m,
            None => crate::block::AIR,
        }
    }

    /// Places a block at the given position.  If the position is out of
    /// range, the grid is left unchanged.
    pub fn set_block(&mut self, x: i32, y: i32, z: i32, material: Material) -> (changed: bool)
        requires
            old(self).wf(),
        ensures
            final(self).wf(),
            final(self).spec_width() == old(self).spec_width(),
            final(self).spec_height() == old(self).spec_height(),
            changed == old(self).in_bounds(x as int, y as int, z as int),
            changed ==> final(self).spec_blocks() == old(self).spec_blocks()
                .update(old(self).spec_index(x as int, y as int, z as int), material),
            !changed ==> *final(self) == *old(self),
    {
        match self.index_of(x, y, z) {
            Some(i) => {
                self.blocks.set(i, material);
                true
            }
            None => false,
        }
    }
}

/// The blocks of a grid after a heightmap fill: in every column
/// `(x, z)`, the cells from the bottom up to the column's height carry
/// the fill material, and the cells above keep their old content.
pub open spec fn filled_blocks(
    blocks: Seq<Material>,
    width: int,
    heights: Seq<i32>,
    material: Material,
) -> Seq<Material> {
    Seq::new(
        blocks.len(),
        |t: int|
            if t / (width * width) <= heights[t % (width * width)] as int {
                material
            } else {
                blocks[t]
            },
    )
}

impl VoxelGrid {
    /// An owned copy of the grid, for handing a mesh build its own
    /// snapshot.
    pub fn snapshot(&self) -> (r: VoxelGrid)
        requires
            self.wf(),
        ensures
            r.wf(),
            r.spec_width() == self.spec_width(),
            r.spec_height() == self.spec_height(),
            r.spec_blocks() == self.spec_blocks(),
    {
        let len = self.blocks.len();
        let mut blocks: Vec<Material> = Vec::new();
        let mut k: usize = 0;
        while k < len
            invariant
                len == self.blocks@.len(),
                0 <= k <= len,
                blocks@ == self.blocks@.take(k as int),
            decreases len - k,
        {
            blocks.push(self.blocks[k]);
            proof {
                assert(blocks@ =~= self.blocks@.take(k as int + 1));
            }
            k = k + 1;
        }
        proof {
            assert(blocks@ =~= self.blocks@);
        }
        VoxelGrid { width: self.width, height: self.height, blocks }
    }

    /// Fills every column with the given material from the bottom up
    /// to the column's height in the heightmap (negative heights leave
    /// the column untouched).  The heightmap holds one entry per
    /// column, row-major with x varying fastest.
    pub fn fill_columns(&mut self, heights: &Vec<i32>, material: Material)
        requires
            old(self).wf(),
            heights@.len() == old(self).spec_width() * old(self).spec_width(),
        ensures
            final(self).wf(),
            final(self).spec_width() == old(self).spec_width(),
            final(self).spec_height() == old(self).spec_height(),
            final(self).spec_blocks() == filled_blocks(
                old(self).spec_blocks(),
                old(self).spec_width(),
                heights@,
                material,
            ),
    {
        let ghost orig = self.blocks@;
        proof {
            assert(1 <= self.width * self.width <= 0x10000) by (nonlinear_arith)
                requires
                    1 <= self.width <= 256,
            ;
            assert(self.width * self.width * self.height <= 0x1000000) by (nonlinear_arith)
                requires
                    1 <= self.width * self.width <= 0x10000,
                    1 <= self.height <= 256,
            ;
        }
        let area = self.width * self.width;
        let len = self.blocks.len();
        let mut t: usize = 0;
        while t < len
            invariant
                self.wf(),
                self.spec_width() == old(self).spec_width(),
                self.spec_height() == old(self).spec_height(),
                area == self.spec_width() * self.spec_width(),
                1 <= area <= 0x10000,
                heights@.len() == area,
                len == self.blocks@.len(),
                len <= 0x1000000,
                orig.len() == len,
                0 <= t <= len,
                forall|p: int| 0 <= p < t ==> self.blocks@[p] == filled_blocks(orig,
                    self.spec_width(), heights@, material)[p],
                forall|p: int| t <= p < len ==> self.blocks@[p] == orig[p],
            decreases len - t,
        {
            let y = t / area;
            let col = t % area;
            proof {
                assert(col < area);
                assert(y <= t as int) by (nonlinear_arith)
                    requires
                        1 <= area,
                        0 <= t,
                        y == t as int / area as int,
                ;
            }
            if (y as i32) <= heights[col] {
                self.blocks.set(t, material);
            }
            proof {
                assert(self.blocks@[t as int] == filled_blocks(orig, self.spec_width(), heights@,
                    material)[t as int]);
            }
            t = t + 1;
        }
        proof {
            assert(self.blocks@ =~= filled_blocks(orig, self.spec_width(), heights@, material));
        }
    }
}

/// A chunk: one voxel grid at a chunk-grid coordinate, plus the dirty
/// flag that marks its mesh as stale relative to its blocks.
pub struct Chunk {
    loc: ChunkCoord,
    grid: VoxelGrid,
    dirty: bool,
}

impl Chunk {
    /// The coordinate of the chunk.
    pub closed spec fn spec_loc(&self) -> ChunkCoord {
        self.loc
    }

    /// The voxel grid of the chunk.
    pub closed spec fn spec_grid(&self) -> VoxelGrid {
        self.grid
    }

    /// Whether the chunk needs its mesh rebuilt.
    pub closed spec fn spec_dirty(&self) -> bool {
        self.dirty
    }

    /// Well-formedness: the grid is well-formed.
    pub open spec fn wf(&self) -> bool {
        self.spec_grid().wf()
    }

    /// Creates a new chunk at the given coordinate, filled with air and
    /// marked dirty so that its first mesh build gets scheduled.
    pub fn new(loc: ChunkCoord) -> (r: Chunk)
        ensures
            r.wf(),
            r.spec_loc() == loc,
            r.spec_dirty(),
            r.spec_grid().spec_width() == crate::CHUNK_SIZE,
            r.spec_grid().spec_height() == crate::CHUNK_HEIGHT,
            r.spec_grid().spec_blocks() == Seq::new(crate::CHUNK_VOLUME as nat,
                |t: int| crate::block::AIR),
            forall|x: int, y: int, z: int|
                r.spec_grid().spec_block(x, y, z) == crate::block::AIR,
    {
        Chunk {
            loc,
            grid: VoxelGrid::new(crate::CHUNK_SIZE, crate::CHUNK_HEIGHT),
            dirty: true,
        }
    }

    /// The coordinate of the chunk.
    pub fn loc(&self) -> (r: ChunkCoord)
        ensures
            r == self.spec_loc(),
    {
        self.loc
    }

    /// The voxel grid of the chunk.
    pub fn grid(&self) -> (r: &VoxelGrid)
        ensures
            *r == self.spec_grid(),
    {
        &self.grid
    }

    /// Whether the chunk needs its mesh rebuilt.
    pub fn dirty(&self) -> (r: bool)
        ensures
            r == self.spec_dirty(),
    {
        self.dirty
    }

    /// Clears the dirty flag; called when a mesh build is taken off the
    /// chunk, so that one stale mesh does not schedule two builds.
    pub fn clear_dirty(&mut self)
        ensures
            final(self).spec_loc() == old(self).spec_loc(),
            final(self).spec_grid() == old(self).spec_grid(),
            !final(self).spec_dirty(),
    {
        self.dirty = false;
    }

    /// Fills every column of the chunk with the given material from
    /// the bottom up to the column's height in the heightmap, and
    /// marks the chunk dirty: generated terrain needs a mesh build.
    pub fn fill_columns(&mut self, heights: &Vec<i32>, material: Material)
        requires
            old(self).wf(),
            heights@.len() == old(self).spec_grid().spec_width() * old(
                self,
            ).spec_grid().spec_width(),
        ensures
            final(self).wf(),
            final(self).spec_loc() == old(self).spec_loc(),
            final(self).spec_grid().spec_width() == old(self).spec_grid().spec_width(),
            final(self).spec_grid().spec_height() == old(self).spec_grid().spec_height(),
            final(self).spec_grid().spec_blocks() == filled_blocks(
                old(self).spec_grid().spec_blocks(),
                old(self).spec_grid().spec_width(),
                heights@,
                material,
            ),
            final(self).spec_dirty(),
    {
        self.grid.fill_columns(heights, material);
        self.dirty = true;
    }

    /// The material at a given position of the chunk, or `None` if the
    /// position is out of range.
    pub fn block(&self, x: i32, y: i32, z: i32) -> (r: Option<Material>)
        requires
            self.wf(),
        ensures
            match r {
                Some(m) => self.spec_grid().in_bounds(x as int, y as int, z as int)
                    && m == self.spec_grid().spec_block(x as int, y as int, z as int),
                None => !self.spec_grid().in_bounds(x as int, y as int, z as int),
            },
    {
        self.grid.block(x, y, z)
    }

    /// Places a block at the given position and, if the position was in
    /// range, marks the chunk dirty.  An out-of-range position leaves
    /// the chunk unchanged.
    pub fn set_block(&mut self, x: i32, y: i32, z: i32, material: Material)
        requires
            old(self).wf(),
        ensures
            final(self).wf(),
            final(self).spec_loc() == old(self).spec_loc(),
            final(self).spec_grid().spec_width() == old(self).spec_grid().spec_width(),
            final(self).spec_grid().spec_height() == old(self).spec_grid().spec_height(),
            old(self).spec_grid().in_bounds(x as int, y as int, z as int) ==> {
                &&& final(self).spec_grid().spec_blocks()
                    == old(self).spec_grid().spec_blocks().update(
                        old(self).spec_grid().spec_index(x as int, y as int, z as int), material)
                &&& final(self).spec_dirty()
            },
            !old(self).spec_grid().in_bounds(x as int, y as int, z as int) ==>
                *final(self) == *old(self),
    {
        let changed = self.grid.set_block(x, y, z, material);
        if changed {
            self.dirty = true;
        }
    }
}

} // verus!

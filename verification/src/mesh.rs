//! Chunk mesh buffers.
//!
//! A chunk is rendered with a single mesh.  The mesh holds one merged
//! quad per entry: four corner vertices, six triangle indices whose
//! winding depends on the sweep direction, texture coordinates scaled by
//! the quad size (so a merged quad tiles its texture instead of
//! stretching it), one normal per vertex, and a tile offset that picks
//! the texture of the face.  All values are integers in chunk-relative
//! units; the renderer boundary turns them into its own vertex formats.

use vstd::prelude::*;
use crate::block::Material;

verus! {

/// The six sides of a block, one per sweep direction of the mesher.
#[derive(Copy, Clone, Eq, PartialEq, Structural, Debug)]
pub enum Side {
    South,
    North,
    East,
    West,
    Top,
    Bottom,
}

impl Side {
    /// The outward normal of the side, one component per axis.
    pub open spec fn spec_normal(self) -> Seq<i32> {
        match self {
            Side::South => seq![0i32, 0i32, -1i32],
            Side::North => seq![0i32, 0i32, 1i32],
            Side::East => seq![-1i32, 0i32, 0i32],
            Side::West => seq![1i32, 0i32, 0i32],
            Side::Top => seq![0i32, 1i32, 0i32],
            Side::Bottom => seq![0i32, -1i32, 0i32],
        }
    }

    /// The tile offset of the side inside the texture atlas: grass top,
    /// dirt bottom, and the common side tile everywhere else.
    pub open spec fn spec_tile_offset(self) -> Seq<i32> {
        match self {
            Side::Top => seq![1i32, 15i32],
            Side::Bottom => seq![2i32, 15i32],
            _ => seq![0i32, 15i32],
        }
    }

    /// The outward normal of the side.
    pub fn normal(&self) -> (r: [i32; 3])
        ensures
            r@ == self.spec_normal(),
    {
        let r: [i32; 3] = match *self {
            Side::South => [0, 0, -1],
            Side::North => [0, 0, 1],
            Side::East => [-1, 0, 0],
            Side::West => [1, 0, 0],
            Side::Top => [0, 1, 0],
            Side::Bottom => [0, -1, 0],
        };
        proof {
            assert(r@ =~= self.spec_normal());
        }
        r
    }
}

/// One voxel face considered during a sweep: the side being meshed and
/// the material that shows on it.  Faces merge when their materials are
/// equal.
#[derive(Copy, Clone, Eq, PartialEq, Structural, Debug)]
pub struct VoxelFace {
    /// The side of the block the face belongs to.
    pub side: Side,
    /// The material that shows on the face.
    pub material: Material,
}

/// A vertex position in chunk-relative block units.
#[derive(Copy, Clone, Eq, PartialEq, Structural, Debug)]
pub struct Vertex {
    pub x: i32,
    pub y: i32,
    pub z: i32,
}

/// The three position components of a vertex, in buffer order.
pub open spec fn vertex_coords(v: Vertex) -> Seq<i32> {
    seq![v.x, v.y, v.z]
}

/// The vertex positions a quad appends: bottom left, bottom right, top
/// left, top right.
pub open spec fn quad_positions(bl: Vertex, tl: Vertex, tr: Vertex, br: Vertex) -> Seq<i32> {
    vertex_coords(bl) + vertex_coords(br) + vertex_coords(tl) + vertex_coords(tr)
}

/// The triangle indices a quad appends on top of `base`, the index of
/// its first vertex.  A back face winds the two triangles in the
/// reverse order of a front face, so every triangle comes out
/// front-face-out under the counter-clockwise-is-front convention.
pub open spec fn quad_indices(base: u32, back_face: bool) -> Seq<u32> {
    if back_face {
        seq![
            (base + 2) as u32,
            base,
            (base + 1) as u32,
            (base + 1) as u32,
            (base + 3) as u32,
            (base + 2) as u32,
        ]
    } else {
        seq![
            (base + 2) as u32,
            (base + 3) as u32,
            (base + 1) as u32,
            (base + 1) as u32,
            base,
            (base + 2) as u32,
        ]
    }
}

/// The texture coordinates a quad appends, scaled by its width and
/// height so that the texture tiles across the merged rectangle.
pub open spec fn quad_tex_coords(width: i32, height: i32) -> Seq<i32> {
    seq![0i32, 0i32, width, 0i32, 0i32, height, width, height]
}

/// The normals a quad appends: the side normal, once per vertex.
pub open spec fn quad_normals(side: Side) -> Seq<i32> {
    side.spec_normal() + side.spec_normal() + side.spec_normal() + side.spec_normal()
}

/// The tile offsets a quad appends: the side's tile, once per vertex.
pub open spec fn quad_tile_offsets(side: Side) -> Seq<i32> {
    side.spec_tile_offset() + side.spec_tile_offset() + side.spec_tile_offset()
        + side.spec_tile_offset()
}

/// The mesh of one chunk, built quad by quad.
pub struct ChunkMesh {
    vertex_positions: Vec<i32>,
    tex_coords: Vec<i32>,
    indices: Vec<u32>,
    normals: Vec<i32>,
    tile_offsets: Vec<i32>,
    current_index: u32,
}

impl ChunkMesh {
    /// The vertex position buffer: three components per vertex.
    pub closed spec fn spec_positions(&self) -> Seq<i32> {
        self.vertex_positions@
    }

    /// The texture coordinate buffer: two components per vertex.
    pub closed spec fn spec_tex_coords(&self) -> Seq<i32> {
        self.tex_coords@
    }

    /// The triangle index buffer: three indices per triangle.
    pub closed spec fn spec_indices(&self) -> Seq<u32> {
        self.indices@
    }

    /// The normal buffer: three components per vertex.
    pub closed spec fn spec_normals(&self) -> Seq<i32> {
        self.normals@
    }

    /// The tile offset buffer: two components per vertex.
    pub closed spec fn spec_tile_offsets(&self) -> Seq<i32> {
        self.tile_offsets@
    }

    /// The index the next vertex will get: four per quad added so far.
    pub closed spec fn spec_current_index(&self) -> u32 {
        self.current_index
    }

    /// Well-formedness: all buffers describe the same quads.
    pub open spec fn wf(&self) -> bool {
        &&& self.spec_current_index() == 4 * self.spec_quad_count()
        &&& self.spec_positions().len() == 12 * self.spec_quad_count()
        &&& self.spec_indices().len() == 6 * self.spec_quad_count()
        &&& self.spec_tex_coords().len() == 8 * self.spec_quad_count()
        &&& self.spec_normals().len() == 12 * self.spec_quad_count()
        &&& self.spec_tile_offsets().len() == 8 * self.spec_quad_count()
    }

    /// The number of quads added to the mesh so far.
    pub closed spec fn spec_quad_count(&self) -> int {
        self.current_index as int / 4
    }

    /// Creates an empty mesh.
    pub fn new() -> (r: ChunkMesh)
        ensures
            r.wf(),
            r.spec_quad_count() == 0,
            r.spec_positions() == Seq::<i32>::empty(),
            r.spec_tex_coords() == Seq::<i32>::empty(),
            r.spec_indices() == Seq::<u32>::empty(),
            r.spec_normals() == Seq::<i32>::empty(),
            r.spec_tile_offsets() == Seq::<i32>::empty(),
            r.spec_current_index() == 0,
    {
        ChunkMesh {
            vertex_positions: Vec::new(),
            tex_coords: Vec::new(),
            indices: Vec::new(),
            normals: Vec::new(),
            tile_offsets: Vec::new(),
            current_index: 0,
        }
    }

    /// The number of quads added to the mesh so far.
    pub fn quad_count(&self) -> (r: usize)
        requires
            self.wf(),
        ensures
            r == self.spec_quad_count(),
    {
        (self.current_index / 4) as usize
    }

    /// The vertex position buffer: three components per vertex.
    pub fn vertex_positions(&self) -> (r: &Vec<i32>)
        ensures
            r@ == self.spec_positions(),
    {
        &self.vertex_positions
    }

    /// The texture coordinate buffer: two components per vertex.
    pub fn tex_coords(&self) -> (r: &Vec<i32>)
        ensures
            r@ == self.spec_tex_coords(),
    {
        &self.tex_coords
    }

    /// The triangle index buffer: three indices per triangle.
    pub fn indices(&self) -> (r: &Vec<u32>)
        ensures
            r@ == self.spec_indices(),
    {
        &self.indices
    }

    /// The normal buffer: three components per vertex.
    pub fn normals(&self) -> (r: &Vec<i32>)
        ensures
            r@ == self.spec_normals(),
    {
        &self.normals
    }

    /// The tile offset buffer: two components per vertex.
    pub fn tile_offsets(&self) -> (r: &Vec<i32>)
        ensures
            r@ == self.spec_tile_offsets(),
    {
        &self.tile_offsets
    }

    /// Appends one merged quad to the mesh: the four corners of the
    /// rectangle, its width and height in blocks, the face that was
    /// merged, and whether the sweep ran along the back direction
    /// (which flips the winding).
    pub fn add_quad(
        &mut self,
        bottom_left: Vertex,
        top_left: Vertex,
        top_right: Vertex,
        bottom_right: Vertex,
        width: i32,
        height: i32,
        face: &VoxelFace,
        back_face: bool,
    )
        requires
            old(self).wf(),
            old(self).spec_current_index() + 4 <= u32::MAX,
        ensures
            final(self).wf(),
            final(self).spec_quad_count() == old(self).spec_quad_count() + 1,
            final(self).spec_positions() == old(self).spec_positions()
                + quad_positions(bottom_left, top_left, top_right, bottom_right),
            final(self).spec_indices() == old(self).spec_indices()
                + quad_indices(old(self).spec_current_index(), back_face),
            final(self).spec_tex_coords() == old(self).spec_tex_coords()
                + quad_tex_coords(width, height),
            final(self).spec_normals() == old(self).spec_normals()
                + quad_normals(face.side),
            final(self).spec_tile_offsets() == old(self).spec_tile_offsets()
                + quad_tile_offsets(face.side),
            final(self).spec_current_index() == old(self).spec_current_index() + 4,
    {
        let ghost start = *self;

        self.vertex_positions.push(bottom_left.x);
        self.vertex_positions.push(bottom_left.y);
        self.vertex_positions.push(bottom_left.z);
        self.vertex_positions.push(bottom_right.x);
        self.vertex_positions.push(bottom_right.y);
        self.vertex_positions.push(bottom_right.z);
        self.vertex_positions.push(top_left.x);
        self.vertex_positions.push(top_left.y);
        self.vertex_positions.push(top_left.z);
        self.vertex_positions.push(top_right.x);
        self.vertex_positions.push(top_right.y);
        self.vertex_positions.push(top_right.z);

        let base = self.current_index;
        if back_face {
            self.indices.push(base + 2);
            self.indices.push(base);
            self.indices.push(base + 1);
            self.indices.push(base + 1);
            self.indices.push(base + 3);
            self.indices.push(base + 2);
        } else {
            self.indices.push(base + 2);
            self.indices.push(base + 3);
            self.indices.push(base + 1);
            self.indices.push(base + 1);
            self.indices.push(base);
            self.indices.push(base + 2);
        }
        self.current_index = base + 4;

        self.tex_coords.push(0);
        self.tex_coords.push(0);
        self.tex_coords.push(width);
        self.tex_coords.push(0);
        self.tex_coords.push(0);
        self.tex_coords.push(height);
        self.tex_coords.push(width);
        self.tex_coords.push(height);

        let normal = face.side.normal();
        self.normals.push(normal[0]);
        self.normals.push(normal[1]);
        self.normals.push(normal[2]);
        self.normals.push(normal[0]);
        self.normals.push(normal[1]);
        self.normals.push(normal[2]);
        self.normals.push(normal[0]);
        self.normals.push(normal[1]);
        self.normals.push(normal[2]);
        self.normals.push(normal[0]);
        self.normals.push(normal[1]);
        self.normals.push(normal[2]);

        let tile: [i32; 2] = match face.side {
            Side::Top => [1, 15],
            Side::Bottom => [2, 15],
            _ => [0, 15],
        };
        self.tile_offsets.push(tile[0]);
        self.tile_offsets.push(tile[1]);
        self.tile_offsets.push(tile[0]);
        self.tile_offsets.push(tile[1]);
        self.tile_offsets.push(tile[0]);
        self.tile_offsets.push(tile[1]);
        self.tile_offsets.push(tile[0]);
        self.tile_offsets.push(tile[1]);

        proof {
            assert(self.vertex_positions@ =~= start.spec_positions()
                + quad_positions(bottom_left, top_left, top_right, bottom_right));
            assert(self.indices@ =~= start.spec_indices()
                + quad_indices(start.spec_current_index(), back_face));
            assert(self.tex_coords@ =~= start.spec_tex_coords()
                + quad_tex_coords(width, height));
            assert(self.normals@ =~= start.spec_normals() + quad_normals(face.side));
            assert(self.tile_offsets@ =~= start.spec_tile_offsets()
                + quad_tile_offsets(face.side));
        }
    }
}

} // verus!

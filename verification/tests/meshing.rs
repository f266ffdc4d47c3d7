//! Greedy meshing behaviour on concrete grids.

use rustcraft::block::{BlockData, BlockRegistry};
use rustcraft::chunk::VoxelGrid;
use rustcraft::mesh::Side;
use rustcraft::mesher::{greedy_quads, make_greedy_chunk_mesh, Quad};

/// A catalog with air (transparent) and one opaque stone-like
/// material under id 1.
fn catalog() -> BlockRegistry {
    let mut reg = BlockRegistry::new();
    reg.register_data(BlockData {
        id: 0,
        name: String::from("air"),
        opaque: false,
        collidable: false,
        tex: None,
    });
    reg.register_data(BlockData {
        id: 1,
        name: String::from("stone"),
        opaque: true,
        collidable: true,
        tex: None,
    });
    reg
}

/// A grid with every cell set to the given material.
fn uniform_grid(width: usize, height: usize, material: u8) -> VoxelGrid {
    let mut grid = VoxelGrid::new(width, height);
    for y in 0..height as i32 {
        for z in 0..width as i32 {
            for x in 0..width as i32 {
                grid.set_block(x, y, z, material);
            }
        }
    }
    grid
}

#[test]
fn uniform_grid_meshes_to_six_quads() {
    let reg = catalog();
    let grid = uniform_grid(4, 2, 1);
    let quads = greedy_quads(&grid, &reg);
    assert_eq!(quads.len(), 6);

    let mesh = make_greedy_chunk_mesh(&grid, &reg);
    assert_eq!(mesh.quad_count(), 6);
    assert_eq!(mesh.vertex_positions().len(), 72);
    assert_eq!(mesh.indices().len(), 36);
    assert_eq!(mesh.tex_coords().len(), 48);
    assert_eq!(mesh.normals().len(), 72);
    assert_eq!(mesh.tile_offsets().len(), 48);
}

#[test]
fn uniform_chunk_sized_grid_meshes_to_six_quads() {
    let reg = catalog();
    let grid = uniform_grid(16, 16, 1);
    let quads = greedy_quads(&grid, &reg);
    assert_eq!(quads.len(), 6);
}

#[test]
fn air_grid_meshes_to_nothing() {
    let reg = catalog();
    let grid = VoxelGrid::new(8, 8);
    let quads = greedy_quads(&grid, &reg);
    assert_eq!(quads.len(), 0);
    let mesh = make_greedy_chunk_mesh(&grid, &reg);
    assert_eq!(mesh.quad_count(), 0);
    assert_eq!(mesh.vertex_positions().len(), 0);
    assert_eq!(mesh.indices().len(), 0);
}

#[test]
fn unknown_material_defaults_to_opaque() {
    // Id 7 is not in the catalog: the mesher falls back to treating it
    // as opaque rather than dropping the chunk's geometry.
    let reg = catalog();
    let grid = uniform_grid(2, 2, 7);
    let quads = greedy_quads(&grid, &reg);
    assert_eq!(quads.len(), 6);
}

#[test]
fn transparent_material_is_not_meshed() {
    let mut reg = catalog();
    reg.register_data(BlockData {
        id: 2,
        name: String::from("glass"),
        opaque: false,
        collidable: true,
        tex: None,
    });
    let grid = uniform_grid(2, 2, 2);
    let quads = greedy_quads(&grid, &reg);
    assert_eq!(quads.len(), 0);
}

/// The grid of the hand-derived scenario: 4 wide, 2 high, material 1
/// everywhere except the column at (x, z) = (0, 0), which is air.
fn pocket_grid() -> VoxelGrid {
    let mut grid = uniform_grid(4, 2, 1);
    grid.set_block(0, 0, 0, 0);
    grid.set_block(0, 1, 0, 0);
    grid
}

#[test]
fn air_pocket_grid_meshes_to_hand_derived_counts() {
    let reg = catalog();
    let grid = pocket_grid();

    // Hand derivation: the air column splits the bottom and top faces
    // into two rectangles each (an L-shape), leaves the west and south
    // outer walls one rectangle that skips the column, keeps the east
    // and north walls whole, and exposes two inner walls around the
    // pocket: 8 outer + 2 inner = 10 quads.
    let quads = greedy_quads(&grid, &reg);
    assert_eq!(quads.len(), 10);

    let mesh = make_greedy_chunk_mesh(&grid, &reg);
    assert_eq!(mesh.quad_count(), 10);
    assert_eq!(mesh.vertex_positions().len(), 120);
    assert_eq!(mesh.indices().len(), 60);
    assert_eq!(mesh.tex_coords().len(), 80);
    assert_eq!(mesh.normals().len(), 120);
    assert_eq!(mesh.tile_offsets().len(), 80);
}

#[test]
fn air_pocket_grid_first_quad_is_west_wall() {
    let reg = catalog();
    let grid = pocket_grid();
    let quads = greedy_quads(&grid, &reg);

    // The first emitted quad: back pass, x axis, boundary slice; the
    // west wall merged over y in 0..2 and z in 1..4 (the air column
    // keeps z = 0 out of it).
    let q = &quads[0];
    assert_eq!((q.bottom_left.x, q.bottom_left.y, q.bottom_left.z), (0, 0, 1));
    assert_eq!((q.top_left.x, q.top_left.y, q.top_left.z), (0, 2, 1));
    assert_eq!((q.top_right.x, q.top_right.y, q.top_right.z), (0, 2, 4));
    assert_eq!((q.bottom_right.x, q.bottom_right.y, q.bottom_right.z), (0, 0, 4));
    assert_eq!(q.width, 2);
    assert_eq!(q.height, 3);
    assert!(q.side == Side::West);
    assert_eq!(q.material, 1);
    assert!(q.back_face);
}

#[test]
fn air_pocket_grid_has_whole_east_wall() {
    let reg = catalog();
    let grid = pocket_grid();
    let quads = greedy_quads(&grid, &reg);
    let east: Vec<&Quad> = quads.iter().filter(|q| q.side == Side::East).collect();
    assert_eq!(east.len(), 1);
    let q = east[0];
    assert_eq!((q.bottom_left.x, q.bottom_left.y, q.bottom_left.z), (4, 0, 0));
    assert_eq!((q.top_right.x, q.top_right.y, q.top_right.z), (4, 2, 4));
    assert!(!q.back_face);
}

/// The exposed faces a naive per-face mesher would emit: one quad per
/// meshed block face whose neighbour holds a different material or
/// lies outside the grid.
fn naive_faces(grid: &VoxelGrid, reg: &BlockRegistry) -> usize {
    let w = grid.width() as i32;
    let h = grid.height() as i32;
    let dirs = [(1, 0, 0), (-1, 0, 0), (0, 1, 0), (0, -1, 0), (0, 0, 1), (0, 0, -1)];
    let mut count = 0;
    for y in 0..h {
        for z in 0..w {
            for x in 0..w {
                let m = grid.block_or_air(x, y, z);
                let meshed = m != 0
                    && match reg.block_data(m) {
                        Some(data) => data.opaque,
                        None => true,
                    };
                if !meshed {
                    continue;
                }
                for (dx, dy, dz) in dirs.iter() {
                    let (nx, ny, nz) = (x + dx, y + dy, z + dz);
                    let oob = nx < 0 || nx >= w || ny < 0 || ny >= h || nz < 0 || nz >= w;
                    if oob || grid.block_or_air(nx, ny, nz) != m {
                        count += 1;
                    }
                }
            }
        }
    }
    count
}

#[test]
fn greedy_never_beats_naive_triangle_count() {
    let reg = catalog();
    for grid in [pocket_grid(), uniform_grid(4, 2, 1), uniform_grid(5, 3, 1)] {
        let quads = greedy_quads(&grid, &reg);
        let naive = naive_faces(&grid, &reg);
        // Two triangles per quad on both sides.
        assert!(2 * quads.len() <= 2 * naive);
    }

    // A checkerboard leaves nothing to merge: greedy equals naive.
    let mut grid = VoxelGrid::new(4, 4);
    for y in 0..4 {
        for z in 0..4 {
            for x in 0..4 {
                if (x + y + z) % 2 == 0 {
                    grid.set_block(x, y, z, 1);
                }
            }
        }
    }
    let reg2 = catalog();
    let quads = greedy_quads(&grid, &reg2);
    let naive = naive_faces(&grid, &reg2);
    assert!(2 * quads.len() <= 2 * naive);
    assert_eq!(quads.len(), naive);
}

#[test]
fn remeshing_unchanged_grid_reproduces_mesh_exactly() {
    let reg = catalog();
    let grid = pocket_grid();
    let m1 = make_greedy_chunk_mesh(&grid, &reg);
    let m2 = make_greedy_chunk_mesh(&grid, &reg);
    assert_eq!(m1.vertex_positions(), m2.vertex_positions());
    assert_eq!(m1.indices(), m2.indices());
    assert_eq!(m1.tex_coords(), m2.tex_coords());
    assert_eq!(m1.normals(), m2.normals());
    assert_eq!(m1.tile_offsets(), m2.tile_offsets());
}

#[test]
fn single_block_meshes_to_six_unit_quads() {
    let reg = catalog();
    let mut grid = VoxelGrid::new(4, 4);
    grid.set_block(1, 1, 1, 1);
    let quads = greedy_quads(&grid, &reg);
    assert_eq!(quads.len(), 6);
    for q in quads.iter() {
        assert_eq!(q.width, 1);
        assert_eq!(q.height, 1);
        assert_eq!(q.material, 1);
    }
}

#[test]
fn smallest_grid_meshes_each_way() {
    let reg = catalog();
    // One-cell grid, solid: all six faces are boundary faces.
    let grid = uniform_grid(1, 1, 1);
    assert_eq!(greedy_quads(&grid, &reg).len(), 6);
    // One-cell grid, air: nothing.
    let empty = VoxelGrid::new(1, 1);
    assert_eq!(greedy_quads(&empty, &reg).len(), 0);
}

#[test]
fn larger_uniform_grid_still_merges_to_six_quads() {
    let reg = catalog();
    let grid = uniform_grid(64, 64, 1);
    let quads = greedy_quads(&grid, &reg);
    assert_eq!(quads.len(), 6);
    // Each face is one maximal rectangle of the full side.
    for q in quads.iter() {
        assert_eq!(q.width.max(q.height), 64);
    }
}

#[test]
fn tall_grid_emits_its_top_face() {
    // Height larger than width: the sweep along the y axis still
    // reaches the top boundary slice.
    let reg = catalog();
    let grid = uniform_grid(4, 32, 1);
    let quads = greedy_quads(&grid, &reg);
    assert_eq!(quads.len(), 6);
    let tops: Vec<&Quad> = quads.iter().filter(|q| q.side == Side::Top).collect();
    assert_eq!(tops.len(), 1);
    assert_eq!(tops[0].bottom_left.y, 32);
}

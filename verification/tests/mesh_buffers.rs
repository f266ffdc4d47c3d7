//! Mesh buffer layout, quad by quad.

use rustcraft::mesh::{ChunkMesh, Side, Vertex, VoxelFace};

#[test]
fn add_quad_appends_every_buffer() {
    let mut mesh = ChunkMesh::new();
    let bl = Vertex { x: 0, y: 0, z: 0 };
    let tl = Vertex { x: 3, y: 0, z: 0 };
    let tr = Vertex { x: 3, y: 2, z: 0 };
    let br = Vertex { x: 0, y: 2, z: 0 };
    let face = VoxelFace { side: Side::Top, material: 1 };
    mesh.add_quad(bl, tl, tr, br, 3, 2, &face, false);

    // Vertex order: bottom left, bottom right, top left, top right.
    assert_eq!(
        mesh.vertex_positions(),
        &vec![0, 0, 0, 0, 2, 0, 3, 0, 0, 3, 2, 0]
    );
    // Front-face winding.
    assert_eq!(mesh.indices(), &vec![2, 3, 1, 1, 0, 2]);
    // Texture coordinates scale by the quad extent, so the texture
    // tiles across the merged rectangle.
    assert_eq!(mesh.tex_coords(), &vec![0, 0, 3, 0, 0, 2, 3, 2]);
    // One normal per vertex.
    assert_eq!(mesh.normals(), &vec![0, 1, 0, 0, 1, 0, 0, 1, 0, 0, 1, 0]);
    // The top side picks the grass-top tile.
    assert_eq!(mesh.tile_offsets(), &vec![1, 15, 1, 15, 1, 15, 1, 15]);
    assert_eq!(mesh.quad_count(), 1);
}

#[test]
fn back_face_reverses_winding_and_continues_indices() {
    let mut mesh = ChunkMesh::new();
    let v = Vertex { x: 0, y: 0, z: 0 };
    let face = VoxelFace { side: Side::Bottom, material: 2 };
    mesh.add_quad(v, v, v, v, 1, 1, &face, true);
    assert_eq!(mesh.indices(), &vec![2, 0, 1, 1, 3, 2]);
    // The bottom side picks the dirt tile.
    assert_eq!(mesh.tile_offsets(), &vec![2, 15, 2, 15, 2, 15, 2, 15]);

    let side_face = VoxelFace { side: Side::North, material: 2 };
    mesh.add_quad(v, v, v, v, 1, 1, &side_face, false);
    // The second quad's indices start at vertex 4.
    assert_eq!(mesh.indices(), &vec![2, 0, 1, 1, 3, 2, 6, 7, 5, 5, 4, 6]);
    // Every other side picks the common side tile.
    assert_eq!(
        mesh.tile_offsets(),
        &vec![2, 15, 2, 15, 2, 15, 2, 15, 0, 15, 0, 15, 0, 15, 0, 15]
    );
}

#[test]
fn side_normals_are_unit_axis_vectors() {
    assert_eq!(Side::South.normal(), [0, 0, -1]);
    assert_eq!(Side::North.normal(), [0, 0, 1]);
    assert_eq!(Side::East.normal(), [-1, 0, 0]);
    assert_eq!(Side::West.normal(), [1, 0, 0]);
    assert_eq!(Side::Top.normal(), [0, 1, 0]);
    assert_eq!(Side::Bottom.normal(), [0, -1, 0]);
}

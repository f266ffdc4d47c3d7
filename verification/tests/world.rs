//! Chunks, the store, terrain and the streaming scheduler.

use rustcraft::block::{BlockData, BlockRegistry, Materials};
use rustcraft::chunk::{Chunk, ChunkCoord, VoxelGrid};
use rustcraft::mesher::make_greedy_chunk_mesh;
use rustcraft::scheduler::{StreamStep, StreamingScheduler};
use rustcraft::store::ChunkStore;
use rustcraft::terrain::SimpleTerrainGen;

fn catalog() -> BlockRegistry {
    let mut reg = BlockRegistry::new();
    reg.register_data(BlockData {
        id: 0,
        name: String::from("air"),
        opaque: false,
        collidable: false,
        tex: None,
    });
    reg.register_data(BlockData {
        id: 1,
        name: String::from("grass"),
        opaque: true,
        collidable: true,
        tex: None,
    });
    reg
}

#[test]
fn grid_reads_out_of_range_as_no_block() {
    let mut grid = VoxelGrid::new(4, 2);
    assert_eq!(grid.block(0, 0, 0), Some(0));
    assert_eq!(grid.block(-1, 0, 0), None);
    assert_eq!(grid.block(0, 2, 0), None);
    assert_eq!(grid.block(4, 0, 0), None);
    assert_eq!(grid.block_or_air(-1, 0, 0), 0);

    assert!(grid.set_block(3, 1, 2, 9));
    assert_eq!(grid.block(3, 1, 2), Some(9));
    // Out-of-range writes are dropped rather than failing.
    assert!(!grid.set_block(0, -1, 0, 9));
    assert!(!grid.set_block(0, 0, 4, 9));
}

#[test]
fn chunk_tracks_dirty_across_block_writes() {
    let mut chunk = Chunk::new(ChunkCoord { x: 3, z: -2 });
    assert!(chunk.dirty());
    assert_eq!(chunk.loc(), ChunkCoord { x: 3, z: -2 });
    chunk.clear_dirty();
    assert!(!chunk.dirty());
    // An out-of-range write does not dirty the chunk.
    chunk.set_block(-1, 0, 0, 1);
    assert!(!chunk.dirty());
    chunk.set_block(5, 7, 5, 1);
    assert!(chunk.dirty());
    assert_eq!(chunk.block(5, 7, 5), Some(1));
}

#[test]
fn registry_looks_up_first_entry_and_defaults_to_opaque() {
    let reg = catalog();
    assert_eq!(reg.blocks().len(), 2);
    let air = reg.block_data(0).unwrap();
    assert_eq!(air.name, "air");
    assert!(!air.opaque);
    let grass = reg.block_data(1).unwrap();
    assert!(grass.opaque);
    assert!(grass.collidable);
    assert!(reg.block_data(9).is_none());
    // Unknown ids fall back to opaque; registered ids answer as
    // registered.
    assert!(reg.material_opaque(9));
    assert!(!reg.material_opaque(0));
    assert!(reg.material_opaque(1));
}

#[test]
fn registry_first_registration_wins_for_duplicate_ids() {
    let mut reg = catalog();
    reg.register_data(BlockData {
        id: 1,
        name: String::from("shadow grass"),
        opaque: false,
        collidable: false,
        tex: None,
    });
    assert_eq!(reg.block_data(1).unwrap().name, "grass");
    assert!(reg.material_opaque(1));
}

#[test]
fn material_ids_match_their_catalog_slots() {
    assert_eq!(Materials::Air.id(), 0);
    assert_eq!(Materials::Grass.id(), 1);
    assert_eq!(Materials::Dirt.id(), 2);
    assert_eq!(Materials::Stone.id(), 3);
}

#[test]
fn terrain_fills_columns_up_to_their_heights() {
    let gen = SimpleTerrainGen::new();
    let mut chunk = Chunk::new(ChunkCoord { x: 0, z: 0 });
    chunk.clear_dirty();
    let mut heights = vec![3i32; 256];
    heights[0] = 0; // column (0, 0): a single block
    heights[16 + 2] = -1; // column (2, 1): left empty
    gen.gen_smooth_terrain(&mut chunk, &heights);

    assert!(chunk.dirty());
    let grass = Materials::Grass.id();
    assert_eq!(chunk.block(0, 0, 0), Some(grass));
    assert_eq!(chunk.block(0, 1, 0), Some(0));
    assert_eq!(chunk.block(2, 0, 1), Some(0));
    assert_eq!(chunk.block(5, 0, 5), Some(grass));
    assert_eq!(chunk.block(5, 3, 5), Some(grass));
    assert_eq!(chunk.block(5, 4, 5), Some(0));
}

#[test]
fn spiral_plan_is_deterministic() {
    let scheduler = StreamingScheduler::new(6);
    let center = ChunkCoord { x: 11, z: -7 };
    let a = scheduler.plan(center);
    let b = scheduler.plan(center);
    assert_eq!(a, b);
    // The traversal square has side 2 * radius + 3; every offset of it
    // is visited exactly once.
    assert_eq!(a.len(), 15 * 15);
}

#[test]
fn spiral_plan_visits_in_spiral_order_and_marks_border() {
    let scheduler = StreamingScheduler::new(0);
    let plan = scheduler.plan(ChunkCoord { x: 0, z: 0 });
    let expected = [
        ((0, 0), false),
        ((1, 0), true),
        ((1, 1), true),
        ((0, 1), true),
        ((-1, 1), true),
        ((-1, 0), true),
        ((-1, -1), true),
        ((0, -1), true),
        ((1, -1), true),
    ];
    assert_eq!(plan.len(), expected.len());
    for (step, (coord, evict)) in plan.iter().zip(expected.iter()) {
        assert_eq!(
            *step,
            StreamStep { coord: ChunkCoord { x: coord.0, z: coord.1 }, evict: *evict }
        );
    }
}

#[test]
fn spiral_plan_follows_the_viewer() {
    let scheduler = StreamingScheduler::new(0);
    let plan = scheduler.plan(ChunkCoord { x: 100, z: -200 });
    assert_eq!(plan[0].coord, ChunkCoord { x: 100, z: -200 });
    assert!(!plan[0].evict);
    assert_eq!(plan[1].coord, ChunkCoord { x: 101, z: -200 });
    assert!(plan[1].evict);
}

#[test]
fn spiral_border_bounds_the_retained_set() {
    let radius = 2i32;
    let scheduler = StreamingScheduler::new(radius);
    let plan = scheduler.plan(ChunkCoord { x: 0, z: 0 });
    let retained: Vec<&StreamStep> = plan.iter().filter(|s| !s.evict).collect();
    // The interior of the traversal square is the (2R + 1)^2 block
    // around the viewer.
    assert_eq!(retained.len(), ((2 * radius + 1) * (2 * radius + 1)) as usize);
    for step in retained {
        assert!((step.coord.x).abs() <= radius);
        assert!((step.coord.z).abs() <= radius);
    }
}

#[test]
fn store_add_is_idempotent_and_remove_drops_chunks() {
    let mut store = ChunkStore::new();
    let c = ChunkCoord { x: 1, z: 2 };
    assert!(!store.contains(c));
    store.add(c);
    assert!(store.contains(c));
    let chunk = store.chunk(c).unwrap();
    assert!(chunk.dirty());
    assert_eq!(chunk.block(0, 0, 0), Some(0));

    // A second add leaves the stored chunk alone.
    store.add(c);
    assert!(store.contains(c));

    store.remove(c);
    assert!(!store.contains(c));
    assert!(store.chunk(c).is_none());
    // Removing again is a silent no-op.
    store.remove(c);
    assert!(!store.contains(c));
}

#[test]
fn add_then_remove_leaves_no_mesh_even_with_build_in_flight() {
    let reg = catalog();
    let mut store = ChunkStore::new();
    let c = ChunkCoord { x: 0, z: 0 };

    store.add(c);
    // A build goes in flight for the fresh dirty chunk...
    let job = store.request_rebuild(c).unwrap();
    let mesh = make_greedy_chunk_mesh(&job.grid, &reg);
    // ...but the coordinate is evicted before the result lands.
    store.remove(c);
    store.drain_completed(vec![(c, mesh)]);

    assert!(store.mesh_for(c).is_none());
    assert!(!store.contains(c));

    // The plain add/remove pair without any drain also installs
    // nothing.
    store.add(c);
    store.remove(c);
    assert!(store.mesh_for(c).is_none());
}

#[test]
fn set_block_marks_dirty_and_rebuild_updates_the_mesh() {
    let reg = catalog();
    let mut store = ChunkStore::new();
    let c = ChunkCoord { x: 0, z: 0 };
    store.add(c);

    // First build: the fresh chunk is all air, so its mesh is empty.
    let job = store.request_rebuild(c).unwrap();
    assert_eq!(job.coord, c);
    let mesh = make_greedy_chunk_mesh(&job.grid, &reg);
    store.drain_completed(vec![(c, mesh)]);
    assert_eq!(store.mesh_for(c).unwrap().indices().len(), 0);

    // A clean chunk schedules no build.
    assert!(store.request_rebuild(c).is_none());

    // Placing a block dirties the chunk again.
    store.set_block(c, 0, 0, 0, 1);
    assert!(store.chunk(c).unwrap().dirty());

    // Until the new build is drained, the previous mesh stays current.
    let job2 = store.request_rebuild(c).unwrap();
    assert_eq!(store.mesh_for(c).unwrap().indices().len(), 0);

    // One lone block meshes to six quads, 36 indices.
    let mesh2 = make_greedy_chunk_mesh(&job2.grid, &reg);
    store.drain_completed(vec![(c, mesh2)]);
    let current = store.mesh_for(c).unwrap();
    assert_eq!(current.quad_count(), 6);
    assert_eq!(current.indices().len(), 36);
    assert_eq!(current.vertex_positions().len(), 72);
}

#[test]
fn store_generates_terrain_into_active_chunks() {
    let mut store = ChunkStore::new();
    let c = ChunkCoord { x: -3, z: 4 };
    let heights = vec![2i32; 256];
    assert!(!store.generate_terrain(c, &heights));
    store.add(c);
    assert!(store.generate_terrain(c, &heights));
    let chunk = store.chunk(c).unwrap();
    assert_eq!(chunk.block(7, 0, 7), Some(Materials::Grass.id()));
    assert_eq!(chunk.block(7, 2, 7), Some(Materials::Grass.id()));
    assert_eq!(chunk.block(7, 3, 7), Some(0));
    assert!(chunk.dirty());
}

#[test]
fn stale_build_for_live_chunk_is_replaced_by_latest() {
    let reg = catalog();
    let mut store = ChunkStore::new();
    let c = ChunkCoord { x: 9, z: 9 };
    store.add(c);
    let job = store.request_rebuild(c).unwrap();
    let empty_mesh = make_greedy_chunk_mesh(&job.grid, &reg);

    store.set_block(c, 1, 1, 1, 1);
    let job2 = store.request_rebuild(c).unwrap();
    let block_mesh = make_greedy_chunk_mesh(&job2.grid, &reg);

    // Both results arrive in one frame; the later delivery wins.
    store.drain_completed(vec![(c, empty_mesh), (c, block_mesh)]);
    assert_eq!(store.mesh_for(c).unwrap().quad_count(), 6);
}

//! Chunk store.
//!
//! The store owns the authoritative map from chunk coordinate to the
//! chunk's voxel data and its current mesh (absent until the first
//! build completes).  Mesh builds run elsewhere: `request_rebuild`
//! hands out a snapshot of a dirty chunk's grid, and the finished
//! meshes come back through `drain_completed`, which installs each one
//! only if its coordinate is still active — a build that outlives its
//! chunk is dropped silently.

use vstd::prelude::*;
use crate::block::Material;
use crate::chunk::{Chunk, ChunkCoord, VoxelGrid, filled_blocks};
use crate::mesh::ChunkMesh;

verus! {

/// The spec-level key of a chunk coordinate.
pub open spec fn key_of(c: ChunkCoord) -> (int, int) {
    (c.x as int, c.z as int)
}

/// The abstract state of one chunk: its grid dimensions and blocks,
/// and whether its mesh is stale.
pub struct ChunkModel {
    pub width: int,
    pub height: int,
    pub blocks: Seq<Material>,
    pub dirty: bool,
}

/// The abstract value of one mesh: its five buffers.
pub struct MeshModel {
    pub positions: Seq<i32>,
    pub tex_coords: Seq<i32>,
    pub indices: Seq<u32>,
    pub normals: Seq<i32>,
    pub tile_offsets: Seq<i32>,
}

/// The abstract state of one store entry: a chunk and its current
/// mesh, if one has been installed.
pub struct EntryModel {
    pub chunk: ChunkModel,
    pub mesh: Option<MeshModel>,
}

/// The abstract state of the store: the active coordinates and what
/// each one holds.
pub struct StoreModel {
    pub entries: Map<(int, int), EntryModel>,
}

/// The abstract state of a chunk value.
pub open spec fn chunk_model_of(c: Chunk) -> ChunkModel {
    ChunkModel {
        width: c.spec_grid().spec_width(),
        height: c.spec_grid().spec_height(),
        blocks: c.spec_grid().spec_blocks(),
        dirty: c.spec_dirty(),
    }
}

/// The abstract value of a mesh.
pub open spec fn mesh_model_of(m: ChunkMesh) -> MeshModel {
    MeshModel {
        positions: m.spec_positions(),
        tex_coords: m.spec_tex_coords(),
        indices: m.spec_indices(),
        normals: m.spec_normals(),
        tile_offsets: m.spec_tile_offsets(),
    }
}

/// The abstract state of a freshly created chunk: all air, dirty.
pub open spec fn empty_chunk_model() -> ChunkModel {
    ChunkModel {
        width: crate::CHUNK_SIZE as int,
        height: crate::CHUNK_HEIGHT as int,
        blocks: Seq::new(crate::CHUNK_VOLUME as nat, |t: int| crate::block::AIR),
        dirty: true,
    }
}

/// `add`: a no-op on an active coordinate, otherwise a fresh air
/// chunk, dirty and without a mesh.
pub open spec fn spec_add(m: StoreModel, k: (int, int)) -> StoreModel {
    if m.entries.dom().contains(k) {
        m
    } else {
        StoreModel {
            entries: m.entries.insert(k, EntryModel { chunk: empty_chunk_model(), mesh: None }),
        }
    }
}

/// `remove`: the coordinate leaves the store, chunk and mesh alike;
/// idempotent.
pub open spec fn spec_remove(m: StoreModel, k: (int, int)) -> StoreModel {
    StoreModel { entries: m.entries.remove(k) }
}

/// Mesh installation: the delivered mesh replaces the coordinate's
/// current one, but only while the coordinate is active — a build
/// whose chunk was evicted has no effect.
pub open spec fn spec_install(m: StoreModel, k: (int, int), mesh: MeshModel) -> StoreModel {
    if m.entries.dom().contains(k) {
        StoreModel {
            entries: m.entries.insert(
                k,
                EntryModel { chunk: m.entries[k].chunk, mesh: Some(mesh) },
            ),
        }
    } else {
        m
    }
}

/// `drain_completed`: the delivered meshes are installed in delivery
/// order, from position `idx` on; on one coordinate the latest wins.
pub open spec fn spec_drain_from(
    m: StoreModel,
    items: Seq<(ChunkCoord, ChunkMesh)>,
    idx: int,
) -> StoreModel
    decreases items.len() - idx,
{
    if idx < 0 || idx >= items.len() {
        m
    } else {
        spec_drain_from(
            spec_install(m, key_of(items[idx].0), mesh_model_of(items[idx].1)),
            items,
            idx + 1,
        )
    }
}

/// `set_block`: writes one block of an active chunk and marks it
/// dirty; out-of-range positions and inactive coordinates change
/// nothing.
pub open spec fn spec_set_block(
    m: StoreModel,
    k: (int, int),
    x: int,
    y: int,
    z: int,
    material: Material,
) -> StoreModel {
    if m.entries.dom().contains(k) {
        let e = m.entries[k];
        let c = e.chunk;
        if 0 <= x < c.width && 0 <= y < c.height && 0 <= z < c.width {
            StoreModel {
                entries: m.entries.insert(
                    k,
                    EntryModel {
                        chunk: ChunkModel {
                            blocks: c.blocks.update(c.width * c.width * y + c.width * z + x,
                                material),
                            dirty: true,
                            ..c
                        },
                        mesh: e.mesh,
                    },
                ),
            }
        } else {
            m
        }
    } else {
        m
    }
}

/// Terrain generation: the active chunk's columns are filled with
/// grass up to the heightmap and the chunk becomes dirty.
pub open spec fn spec_fill(m: StoreModel, k: (int, int), heights: Seq<i32>) -> StoreModel {
    if m.entries.dom().contains(k) {
        let e = m.entries[k];
        let c = e.chunk;
        StoreModel {
            entries: m.entries.insert(
                k,
                EntryModel {
                    chunk: ChunkModel {
                        blocks: filled_blocks(c.blocks, c.width, heights,
                            crate::block::Materials::Grass.spec_id()),
                        dirty: true,
                        ..c
                    },
                    mesh: e.mesh,
                },
            ),
        }
    } else {
        m
    }
}

/// `request_rebuild` on a dirty chunk: the dirty flag clears before
/// the build is handed out, so one stale mesh schedules one build.
pub open spec fn spec_clear_dirty(m: StoreModel, k: (int, int)) -> StoreModel {
    if m.entries.dom().contains(k) {
        let e = m.entries[k];
        StoreModel {
            entries: m.entries.insert(
                k,
                EntryModel { chunk: ChunkModel { dirty: false, ..e.chunk }, mesh: e.mesh },
            ),
        }
    } else {
        m
    }
}

/// One entry of the store: a chunk and its current mesh, if any.
struct StoreEntry {
    chunk: Chunk,
    mesh: Option<ChunkMesh>,
}

/// The abstract state of a store entry.
spec fn entry_model_of(e: StoreEntry) -> EntryModel {
    EntryModel {
        chunk: chunk_model_of(e.chunk),
        mesh: match e.mesh {
            Some(m) => Some(mesh_model_of(m)),
            None => None,
        },
    }
}

/// The first position holding coordinate `k`, or `-1`.
spec fn entry_idx(s: Seq<StoreEntry>, k: (int, int)) -> int
    decreases s.len(),
{
    if s.len() == 0 {
        -1
    } else if key_of(s[0].chunk.spec_loc()) == k {
        0
    } else {
        let r = entry_idx(s.skip(1), k);
        if r == -1 {
            -1
        } else {
            r + 1
        }
    }
}

/// `entry_idx` finds the first position with the key, or reports that
/// none exists.
proof fn lemma_entry_idx(s: Seq<StoreEntry>, k: (int, int))
    ensures
        entry_idx(s, k) == -1 ==> forall|j: int|
            0 <= j < s.len() ==> key_of(#[trigger] s[j].chunk.spec_loc()) != k,
        entry_idx(s, k) != -1 ==> {
            &&& 0 <= entry_idx(s, k) < s.len()
            &&& key_of(s[entry_idx(s, k)].chunk.spec_loc()) == k
            &&& forall|j: int|
                0 <= j < entry_idx(s, k) ==> key_of(#[trigger] s[j].chunk.spec_loc()) != k
        },
    decreases s.len(),
{
    if s.len() > 0 && key_of(s[0].chunk.spec_loc()) != k {
        lemma_entry_idx(s.skip(1), k);
        assert forall|j: int| 1 <= j < s.len() implies s.skip(1)[j - 1] == s[j] by {}
    }
}

/// A position holding the key means `entry_idx` finds one.
proof fn lemma_entry_idx_finds(s: Seq<StoreEntry>, k: (int, int), j: int)
    requires
        0 <= j < s.len(),
        key_of(s[j].chunk.spec_loc()) == k,
    ensures
        entry_idx(s, k) != -1,
    decreases s.len(),
{
    if key_of(s[0].chunk.spec_loc()) != k {
        lemma_entry_idx_finds(s.skip(1), k, j - 1);
        lemma_entry_idx(s.skip(1), k);
    }
}

/// Whether a chunk has the standard dimensions the store creates its
/// chunks with.
spec fn standard_chunk(c: Chunk) -> bool {
    &&& c.wf()
    &&& c.spec_grid().spec_width() == crate::CHUNK_SIZE
    &&& c.spec_grid().spec_height() == crate::CHUNK_HEIGHT
}

/// Whether every entry carries its own coordinate.
spec fn unique_keys(s: Seq<StoreEntry>) -> bool {
    forall|i: int, j: int|
        0 <= i < j < s.len() ==> key_of(#[trigger] s[i].chunk.spec_loc()) != key_of(
            #[trigger] s[j].chunk.spec_loc())
}

/// The map of a store entry sequence.
spec fn entries_map(s: Seq<StoreEntry>) -> Map<(int, int), EntryModel> {
    Map::new(
        |k: (int, int)| entry_idx(s, k) != -1,
        |k: (int, int)| entry_model_of(s[entry_idx(s, k)]),
    )
}

/// Appending an entry with a fresh coordinate inserts it into the map.
proof fn lemma_entries_map_push(s: Seq<StoreEntry>, e: StoreEntry)
    requires
        entry_idx(s, key_of(e.chunk.spec_loc())) == -1,
    ensures
        entries_map(s.push(e)) == entries_map(s).insert(
            key_of(e.chunk.spec_loc()),
            entry_model_of(e),
        ),
{
    let k = key_of(e.chunk.spec_loc());
    let s2 = s.push(e);
    lemma_entry_idx(s, k);
    lemma_entry_idx_finds(s2, k, s.len() as int);
    lemma_entry_idx(s2, k);
    assert(entry_idx(s2, k) == s.len());
    assert forall|k2: (int, int)| k2 != k implies entry_idx(s2, k2) == entry_idx(s, k2) && (
    entry_idx(s, k2) != -1 ==> s2[entry_idx(s, k2)] == s[entry_idx(s, k2)]) by {
        lemma_entry_idx(s, k2);
        lemma_entry_idx(s2, k2);
        if entry_idx(s, k2) != -1 {
            lemma_entry_idx_finds(s2, k2, entry_idx(s, k2));
        }
        if entry_idx(s2, k2) != -1 {
            assert(entry_idx(s2, k2) < s.len());
            lemma_entry_idx_finds(s, k2, entry_idx(s2, k2));
        }
    }
    assert(entries_map(s2) =~= entries_map(s).insert(k, entry_model_of(e)));
}

/// Removing the position that holds a coordinate removes it from the
/// map.
proof fn lemma_entries_map_remove(s: Seq<StoreEntry>, i: int)
    requires
        unique_keys(s),
        0 <= i < s.len(),
    ensures
        entries_map(s.remove(i)) == entries_map(s).remove(key_of(s[i].chunk.spec_loc())),
{
    let k = key_of(s[i].chunk.spec_loc());
    let s2 = s.remove(i);
    assert forall|k2: (int, int)| true implies {
        &&& (k2 == k ==> entry_idx(s2, k2) == -1)
        &&& (k2 != k ==> (entry_idx(s2, k2) == -1 <==> entry_idx(s, k2) == -1) && (entry_idx(s2,
            k2) != -1 ==> s2[entry_idx(s2, k2)] == s[entry_idx(s, k2)]))
    } by {
        lemma_entry_idx(s, k2);
        lemma_entry_idx(s2, k2);
        if k2 == k {
            if entry_idx(s2, k2) != -1 {
                let j = entry_idx(s2, k2);
                if j < i {
                    assert(s2[j] == s[j]);
                } else {
                    assert(s2[j] == s[j + 1]);
                }
                assert(false);
            }
        } else {
            if entry_idx(s, k2) != -1 {
                let j = entry_idx(s, k2);
                assert(j != i);
                if j < i {
                    assert(s2[j] == s[j]);
                    lemma_entry_idx_finds(s2, k2, j);
                } else {
                    assert(s2[j - 1] == s[j]);
                    lemma_entry_idx_finds(s2, k2, j - 1);
                }
            }
            if entry_idx(s2, k2) != -1 {
                let j = entry_idx(s2, k2);
                if j < i {
                    assert(s2[j] == s[j]);
                    lemma_entry_idx_finds(s, k2, j);
                } else {
                    assert(s2[j] == s[j + 1]);
                    lemma_entry_idx_finds(s, k2, j + 1);
                }
                // Both indices point at an entry with key `k2`; with
                // unique keys they name the same entry.
                let a = entry_idx(s, k2);
                assert(key_of(s[a].chunk.spec_loc()) == k2);
                if j < i {
                    assert(a == j) by {
                        if a < j {
                            assert(s2[a] == s[a]);
                        } else if a > j {
                            assert(key_of(s2[j].chunk.spec_loc()) == k2);
                        }
                    }
                    assert(s2[j] == s[a]);
                } else {
                    assert(a == j + 1) by {
                        if a < j + 1 {
                            if a < i {
                                assert(s2[a] == s[a]);
                            }
                        }
                    }
                    assert(s2[j] == s[a]);
                }
            }
        }
    }
    assert(entries_map(s2) =~= entries_map(s).remove(k));
}

/// Replacing the entry at a coordinate's position, keeping its
/// coordinate, updates the map at that coordinate.
proof fn lemma_entries_map_update(s: Seq<StoreEntry>, i: int, e: StoreEntry)
    requires
        unique_keys(s),
        0 <= i < s.len(),
        entry_idx(s, key_of(s[i].chunk.spec_loc())) == i,
        key_of(e.chunk.spec_loc()) == key_of(s[i].chunk.spec_loc()),
    ensures
        entries_map(s.update(i, e)) == entries_map(s).insert(
            key_of(e.chunk.spec_loc()),
            entry_model_of(e),
        ),
{
    let k = key_of(e.chunk.spec_loc());
    let s2 = s.update(i, e);
    lemma_entry_idx_finds(s2, k, i);
    lemma_entry_idx(s2, k);
    lemma_entry_idx(s, k);
    assert(entry_idx(s2, k) == i) by {
        let j = entry_idx(s2, k);
        if j < i {
            assert(s2[j] == s[j]);
        }
    }
    assert forall|k2: (int, int)| k2 != k implies (entry_idx(s2, k2) == entry_idx(s, k2)) && (
    entry_idx(s, k2) != -1 ==> s2[entry_idx(s, k2)] == s[entry_idx(s, k2)]) by {
        lemma_entry_idx(s, k2);
        lemma_entry_idx(s2, k2);
        if entry_idx(s, k2) != -1 {
            let j = entry_idx(s, k2);
            assert(j != i);
            assert(s2[j] == s[j]);
            lemma_entry_idx_finds(s2, k2, j);
        }
        if entry_idx(s2, k2) != -1 {
            let j = entry_idx(s2, k2);
            assert(j != i);
            assert(s2[j] == s[j]);
            lemma_entry_idx_finds(s, k2, j);
        }
        if entry_idx(s, k2) != -1 && entry_idx(s2, k2) != -1 {
            let a = entry_idx(s, k2);
            let b = entry_idx(s2, k2);
            assert(a == b) by {
                if a < b {
                    assert(s2[a] == s[a]);
                } else if b < a {
                    assert(s2[b] == s[b]);
                }
            }
        }
    }
    assert(entries_map(s2) =~= entries_map(s).insert(k, entry_model_of(e)));
}

/// A mesh build taken off the store: the coordinate it is for and an
/// owned snapshot of the grid to mesh.
pub struct BuildJob {
    /// The coordinate whose mesh the build produces.
    pub coord: ChunkCoord,
    /// The snapshot of the chunk's blocks at request time.
    pub grid: VoxelGrid,
}

/// The authoritative map from chunk coordinate to chunk data and
/// current mesh.
pub struct ChunkStore {
    entries: Vec<StoreEntry>,
}

impl ChunkStore {
    /// The abstract state of the store.
    pub closed spec fn view(&self) -> StoreModel {
        StoreModel { entries: entries_map(self.entries@) }
    }

    /// Well-formedness: one entry per coordinate, every chunk a
    /// well-formed grid of the standard chunk dimensions.
    pub closed spec fn wf(&self) -> bool {
        &&& unique_keys(self.entries@)
        &&& forall|i: int| 0 <= i < self.entries@.len() ==> standard_chunk(
            (#[trigger] self.entries@[i]).chunk)
    }

    /// Creates an empty store.
    pub fn new() -> (r: ChunkStore)
        ensures
            r.wf(),
            r@.entries == Map::<(int, int), EntryModel>::empty(),
    {
        let r = ChunkStore { entries: Vec::new() };
        proof {
            assert(r@.entries =~= Map::<(int, int), EntryModel>::empty());
        }
        r
    }

    /// The position of a coordinate's entry, if the coordinate is
    /// active.
    fn find_entry(&self, coord: ChunkCoord) -> (r: Option<usize>)
        ensures
            match r {
                Some(i) => i == entry_idx(self.entries@, key_of(coord)) && i
                    < self.entries@.len(),
                None => entry_idx(self.entries@, key_of(coord)) == -1,
            },
    {
        let n = self.entries.len();
        let mut i: usize = 0;
        while i < n
            invariant
                n == self.entries@.len(),
                0 <= i <= n,
                forall|j: int| 0 <= j < i ==> key_of(
                    (#[trigger] self.entries@[j]).chunk.spec_loc()) != key_of(coord),
            decreases n - i,
        {
            let loc = self.entries[i].chunk.loc();
            if loc.x == coord.x && loc.z == coord.z {
                proof {
                    lemma_entry_idx_finds(self.entries@, key_of(coord), i as int);
                    lemma_entry_idx(self.entries@, key_of(coord));
                    let e = entry_idx(self.entries@, key_of(coord));
                    assert(e == i as int) by {
                        if e < i as int {
                            assert(key_of(self.entries@[e].chunk.spec_loc()) == key_of(coord));
                        }
                    }
                }
                return Some(i);
            }
            i = i + 1;
        }
        proof {
            lemma_entry_idx(self.entries@, key_of(coord));
            if entry_idx(self.entries@, key_of(coord)) != -1 {
                let e = entry_idx(self.entries@, key_of(coord));
                assert(key_of(self.entries@[e].chunk.spec_loc()) == key_of(coord));
            }
        }
        None
    }

    /// Whether a coordinate is active.
    pub fn contains(&self, coord: ChunkCoord) -> (r: bool)
        ensures
            r == self@.entries.dom().contains(key_of(coord)),
    {
        self.find_entry(coord).is_some()
    }

    /// Activates a coordinate: a no-op if it is already active,
    /// otherwise a fresh air-filled chunk, marked dirty so that its
    /// first mesh build gets scheduled.
    pub fn add(&mut self, coord: ChunkCoord)
        requires
            old(self).wf(),
        ensures
            final(self).wf(),
            final(self)@ == spec_add(old(self)@, key_of(coord)),
    {
        match self.find_entry(coord) {
            Some(_) => {}
            None => {
                let e = StoreEntry { chunk: Chunk::new(coord), mesh: None };
                proof {
                    lemma_entry_idx(self.entries@, key_of(coord));
                    lemma_entries_map_push(self.entries@, e);
                    assert(entry_model_of(e) == EntryModel {
                        chunk: empty_chunk_model(),
                        mesh: None,
                    });
                    assert forall|i: int, j: int| 0 <= i < j < self.entries@.push(e).len()
                        implies key_of((#[trigger] self.entries@.push(e)[i]).chunk.spec_loc())
                        != key_of((#[trigger] self.entries@.push(e)[j]).chunk.spec_loc()) by {
                        if j < self.entries@.len() {
                        } else {
                            assert(self.entries@.push(e)[i] == self.entries@[i]);
                        }
                    }
                }
                self.entries.push(e);
            }
        }
    }

    /// Deactivates a coordinate, dropping its chunk and its mesh;
    /// idempotent.
    pub fn remove(&mut self, coord: ChunkCoord)
        requires
            old(self).wf(),
        ensures
            final(self).wf(),
            final(self)@ == spec_remove(old(self)@, key_of(coord)),
    {
        match self.find_entry(coord) {
            Some(i) => {
                proof {
                    lemma_entry_idx(self.entries@, key_of(coord));
                    lemma_entries_map_remove(self.entries@, i as int);
                    let s = self.entries@;
                    let s2 = s.remove(i as int);
                    assert forall|a: int, b: int| 0 <= a < b < s2.len() implies key_of(
                        (#[trigger] s2[a]).chunk.spec_loc()) != key_of(
                        (#[trigger] s2[b]).chunk.spec_loc()) by {
                        assert(s2[a] == (if a < i as int {
                            s[a]
                        } else {
                            s[a + 1]
                        }));
                        assert(s2[b] == (if b < i as int {
                            s[b]
                        } else {
                            s[b + 1]
                        }));
                    }
                    assert forall|a: int| 0 <= a < s2.len() implies standard_chunk(
                        (#[trigger] s2[a]).chunk) by {
                        assert(s2[a] == (if a < i as int {
                            s[a]
                        } else {
                            s[a + 1]
                        }));
                    }
                }
                self.entries.remove(i);
            }
            None => {
                proof {
                    lemma_entry_idx(self.entries@, key_of(coord));
                    assert(!self@.entries.dom().contains(key_of(coord)));
                    assert(self@.entries.remove(key_of(coord)) =~= self@.entries);
                }
            }
        }
    }
}

} // verus!

verus! {

/// A mutable reference to the entry at position `i`.
fn entry_mut(v: &mut Vec<StoreEntry>, i: usize) -> (e: &mut StoreEntry)
    requires
        0 <= i < old(v)@.len(),
    ensures
        *e == old(v)@[i as int],
        final(v)@ == old(v)@.update(i as int, *final(e)),
{
    &mut v[i]
}

impl ChunkStore {
    /// Places a block in an active chunk and marks the chunk dirty, so
    /// that its mesh gets rebuilt.  Out-of-range positions and
    /// inactive coordinates change nothing.
    pub fn set_block(&mut self, coord: ChunkCoord, x: i32, y: i32, z: i32, material: Material)
        requires
            old(self).wf(),
        ensures
            final(self).wf(),
            final(self)@ == spec_set_block(
                old(self)@,
                key_of(coord),
                x as int,
                y as int,
                z as int,
                material,
            ),
    {
        let ghost s = self.entries@;
        let ghost k = key_of(coord);
        match self.find_entry(coord) {
            Some(i) => {
                proof {
                    lemma_entry_idx(s, k);
                }
                let e = entry_mut(&mut self.entries, i);
                e.chunk.set_block(x, y, z, material);
                proof {
                    let e2 = *final(e);
                    lemma_entries_map_update(s, i as int, e2);
                    let s2 = s.update(i as int, e2);
                    assert forall|a: int, b: int| 0 <= a < b < s2.len() implies key_of(
                        (#[trigger] s2[a]).chunk.spec_loc()) != key_of(
                        (#[trigger] s2[b]).chunk.spec_loc()) by {}
                    assert forall|a: int| 0 <= a < s2.len() implies standard_chunk(
                        (#[trigger] s2[a]).chunk) by {}
                    assert(entries_map(s2) =~= spec_set_block(StoreModel { entries: entries_map(
                        s) }, k, x as int, y as int, z as int, material).entries);
                }
            }
            None => {
                proof {
                    lemma_entry_idx(s, k);
                }
            }
        }
    }

    /// Generates terrain in an active chunk: fills every column with
    /// grass up to the heightmap and marks the chunk dirty.  Returns
    /// whether the coordinate was active.
    pub fn generate_terrain(&mut self, coord: ChunkCoord, height_map: &Vec<i32>) -> (r: bool)
        requires
            old(self).wf(),
            height_map@.len() == crate::CHUNK_AREA,
        ensures
            final(self).wf(),
            r == old(self)@.entries.dom().contains(key_of(coord)),
            r ==> final(self)@ == spec_fill(old(self)@, key_of(coord), height_map@),
            !r ==> final(self)@ == old(self)@,
    {
        let ghost s = self.entries@;
        let ghost k = key_of(coord);
        match self.find_entry(coord) {
            Some(i) => {
                proof {
                    lemma_entry_idx(s, k);
                }
                let e = entry_mut(&mut self.entries, i);
                proof {
                    assert(standard_chunk(e.chunk));
                    assert(height_map@.len() == e.chunk.spec_grid().spec_width()
                        * e.chunk.spec_grid().spec_width());
                }
                e.chunk.fill_columns(height_map, crate::block::Materials::Grass.id());
                proof {
                    let e2 = *final(e);
                    lemma_entries_map_update(s, i as int, e2);
                    let s2 = s.update(i as int, e2);
                    assert forall|a: int, b: int| 0 <= a < b < s2.len() implies key_of(
                        (#[trigger] s2[a]).chunk.spec_loc()) != key_of(
                        (#[trigger] s2[b]).chunk.spec_loc()) by {}
                    assert forall|a: int| 0 <= a < s2.len() implies standard_chunk(
                        (#[trigger] s2[a]).chunk) by {}
                    assert(entries_map(s2) =~= spec_fill(StoreModel { entries: entries_map(
                        s) }, k, height_map@).entries);
                }
                true
            }
            None => {
                proof {
                    lemma_entry_idx(s, k);
                }
                false
            }
        }
    }

    /// Takes a mesh build off a dirty active chunk: clears the dirty
    /// flag (so one stale mesh schedules one build) and returns the
    /// coordinate with an owned snapshot of the chunk's grid.  Clean
    /// chunks and inactive coordinates yield nothing and stay
    /// unchanged.
    pub fn request_rebuild(&mut self, coord: ChunkCoord) -> (r: Option<BuildJob>)
        requires
            old(self).wf(),
        ensures
            final(self).wf(),
            match r {
                Some(job) => {
                    &&& old(self)@.entries.dom().contains(key_of(coord))
                    &&& old(self)@.entries[key_of(coord)].chunk.dirty
                    &&& job.coord == coord
                    &&& job.grid.wf()
                    &&& job.grid.spec_width() == old(self)@.entries[key_of(coord)].chunk.width
                    &&& job.grid.spec_height() == old(self)@.entries[key_of(coord)].chunk.height
                    &&& job.grid.spec_blocks() == old(self)@.entries[key_of(coord)].chunk.blocks
                    &&& final(self)@ == spec_clear_dirty(old(self)@, key_of(coord))
                },
                None => {
                    &&& !(old(self)@.entries.dom().contains(key_of(coord)) && old(
                        self,
                    )@.entries[key_of(coord)].chunk.dirty)
                    &&& final(self)@ == old(self)@
                },
            },
    {
        let ghost s = self.entries@;
        let ghost k = key_of(coord);
        match self.find_entry(coord) {
            Some(i) => {
                proof {
                    lemma_entry_idx(s, k);
                }
                let e = entry_mut(&mut self.entries, i);
                if e.chunk.dirty() {
                    e.chunk.clear_dirty();
                    let grid = e.chunk.grid().snapshot();
                    proof {
                        let e2 = *final(e);
                        lemma_entries_map_update(s, i as int, e2);
                        let s2 = s.update(i as int, e2);
                        assert forall|a: int, b: int| 0 <= a < b < s2.len() implies key_of(
                            (#[trigger] s2[a]).chunk.spec_loc()) != key_of(
                            (#[trigger] s2[b]).chunk.spec_loc()) by {}
                        assert forall|a: int| 0 <= a < s2.len() implies standard_chunk(
                            (#[trigger] s2[a]).chunk) by {}
                        assert(entries_map(s2) =~= spec_clear_dirty(StoreModel {
                            entries: entries_map(s) }, k).entries);
                    }
                    Some(BuildJob { coord, grid })
                } else {
                    proof {
                        let e2 = *final(e);
                        let s2 = s.update(i as int, e2);
                        assert(s2 =~= s);
                    }
                    None
                }
            }
            None => {
                proof {
                    lemma_entry_idx(s, k);
                }
                None
            }
        }
    }

    /// Installs one delivered mesh, replacing the coordinate's current
    /// one — but only while the coordinate is active; a build whose
    /// chunk was evicted is dropped silently.
    fn install_mesh(&mut self, coord: ChunkCoord, mesh: ChunkMesh)
        requires
            old(self).wf(),
        ensures
            final(self).wf(),
            final(self)@ == spec_install(old(self)@, key_of(coord), mesh_model_of(mesh)),
    {
        let ghost s = self.entries@;
        let ghost k = key_of(coord);
        match self.find_entry(coord) {
            Some(i) => {
                proof {
                    lemma_entry_idx(s, k);
                }
                let e = entry_mut(&mut self.entries, i);
                e.mesh = Some(mesh);
                proof {
                    let e2 = *final(e);
                    lemma_entries_map_update(s, i as int, e2);
                    let s2 = s.update(i as int, e2);
                    assert forall|a: int, b: int| 0 <= a < b < s2.len() implies key_of(
                        (#[trigger] s2[a]).chunk.spec_loc()) != key_of(
                        (#[trigger] s2[b]).chunk.spec_loc()) by {}
                    assert forall|a: int| 0 <= a < s2.len() implies standard_chunk(
                        (#[trigger] s2[a]).chunk) by {}
                    assert(entries_map(s2) =~= spec_install(StoreModel { entries: entries_map(
                        s) }, k, mesh_model_of(mesh)).entries);
                }
            }
            None => {
                proof {
                    lemma_entry_idx(s, k);
                }
            }
        }
    }

    /// Consumes all mesh builds ready at call time and installs each
    /// one as its coordinate's current mesh, in delivery order; on one
    /// coordinate the latest delivery wins, and a delivery for an
    /// evicted coordinate has no effect.
    pub fn drain_completed(&mut self, completed: Vec<(ChunkCoord, ChunkMesh)>)
        requires
            old(self).wf(),
        ensures
            final(self).wf(),
            final(self)@ == spec_drain_from(old(self)@, completed@, 0),
    {
        let ghost items = completed@;
        let ghost orig = self@;
        let n_items = completed.len();
        let mut rest = completed;
        let mut idx: usize = 0;
        while rest.len() > 0
            invariant
                self.wf(),
                items.len() == n_items,
                0 <= idx <= items.len(),
                rest@ == items.skip(idx as int),
                spec_drain_from(orig, items, 0) == spec_drain_from(self@, items, idx as int),
            decreases rest@.len(),
        {
            let (coord, mesh) = rest.remove(0);
            proof {
                assert(items.skip(idx as int)[0] == items[idx as int]);
                assert(rest@ =~= items.skip(idx as int + 1));
            }
            self.install_mesh(coord, mesh);
            idx = idx + 1;
        }
        proof {
            assert(items.skip(idx as int).len() == 0);
            assert(idx == items.len());
        }
    }

    /// The current mesh of a coordinate, or `None` while the
    /// coordinate is inactive or its first build has not been
    /// installed yet.  Never blocks: a missing mesh means "render
    /// nothing for this coordinate this frame".
    pub fn mesh_for(&self, coord: ChunkCoord) -> (r: Option<&ChunkMesh>)
        ensures
            match r {
                Some(mesh) => self@.entries.dom().contains(key_of(coord))
                    && self@.entries[key_of(coord)].mesh == Some(mesh_model_of(*mesh)),
                None => !self@.entries.dom().contains(key_of(coord)) || self@.entries[key_of(
                    coord,
                )].mesh is None,
            },
    {
        match self.find_entry(coord) {
            Some(i) => self.entries[i].mesh.as_ref(),
            None => None,
        }
    }

    /// The chunk of an active coordinate.
    pub fn chunk(&self, coord: ChunkCoord) -> (r: Option<&Chunk>)
        requires
            self.wf(),
        ensures
            match r {
                Some(c) => {
                    &&& self@.entries.dom().contains(key_of(coord))
                    &&& c.wf()
                    &&& c.spec_loc() == coord
                    &&& chunk_model_of(*c) == self@.entries[key_of(coord)].chunk
                },
                None => !self@.entries.dom().contains(key_of(coord)),
            },
    {
        match self.find_entry(coord) {
            Some(i) => {
                proof {
                    lemma_entry_idx(self.entries@, key_of(coord));
                    assert(key_of(self.entries@[i as int].chunk.spec_loc()) == key_of(coord));
                    assert(self.entries@[i as int].chunk.spec_loc().x as int == coord.x as int);
                }
                Some(&self.entries[i].chunk)
            }
            None => None,
        }
    }
}

/// Law: `add` followed immediately by `remove` for the same
/// coordinate, with no intervening drain, leaves the coordinate
/// entirely inactive — no chunk and no mesh installed — and a mesh
/// build still in flight for it is dropped on delivery rather than
/// installed.
pub proof fn lemma_add_remove_leaves_no_mesh(m: StoreModel, k: (int, int), mesh: MeshModel)
    ensures
        !spec_remove(spec_add(m, k), k).entries.dom().contains(k),
        spec_install(spec_remove(spec_add(m, k), k), k, mesh) == spec_remove(spec_add(m, k), k),
{
}

/// Law: `remove` is idempotent — removing an already absent
/// coordinate changes nothing.
pub proof fn lemma_remove_idempotent(m: StoreModel, k: (int, int))
    ensures
        spec_remove(spec_remove(m, k), k) == spec_remove(m, k),
{
    assert(spec_remove(spec_remove(m, k), k).entries =~= spec_remove(m, k).entries);
}

} // verus!

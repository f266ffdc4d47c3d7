//! Block materials and the block catalog.
//!
//! A material id is a byte; id 0 is reserved for air (no geometry).  The
//! catalog maps a material id to the attributes the mesher and the game
//! rules read: opacity, collidability and texture indices.

use vstd::prelude::*;

verus! {

/// The type of a block: a byte-sized material id.  Id 0 means air.
pub type Material = u8;

/// The material id reserved for air.
pub const AIR: Material = 0;

/// Built-in material ids.  They must agree with the ids under which the
/// catalog is populated at startup.
#[derive(Copy, Clone, Eq, PartialEq, Structural, Debug)]
pub enum Materials {
    Air,
    Grass,
    Dirt,
    Stone,
}

impl Materials {
    /// The material id of this built-in material.
    pub fn id(self) -> (r: Material)
        ensures
            r == self.spec_id(),
    {
        match self {
            Materials::Air => 0,
            Materials::Grass => 1,
            Materials::Dirt => 2,
            Materials::Stone => 3,
        }
    }

    /// The material id of this built-in material.
    pub open spec fn spec_id(self) -> Material {
        match self {
            Materials::Air => 0,
            Materials::Grass => 1,
            Materials::Dirt => 2,
            Materials::Stone => 3,
        }
    }
}

/// The texture indices of the atlas for the top, bottom and side view of
/// a certain block.
#[derive(Copy, Clone, Eq, PartialEq, Structural, Debug)]
pub struct BlockTexture {
    /// The index of the top view.
    pub top: u32,
    /// The index of the bottom view.
    pub bottom: u32,
    /// The index of the side view.
    pub side: u32,
}

/// The nature, character and texture of a certain block.
#[derive(Clone, Debug)]
pub struct BlockData {
    /// The id of the block.
    pub id: Material,
    /// The name of the block.
    pub name: String,
    /// Whether the block is opaque (`true`) or transparent (`false`).
    pub opaque: bool,
    /// Whether the block can be collided with.
    pub collidable: bool,
    /// The texture indices of the block, if it has any.
    pub tex: Option<BlockTexture>,
}

/// The block catalog: all block types available inside the game, each
/// under its material id.  Populated once at startup and read-only
/// afterwards; lookups return the first entry registered under an id.
pub struct BlockRegistry {
    blocks: Vec<BlockData>,
}

/// The index of the first catalog entry with the given id, if any.
pub open spec fn spec_lookup(blocks: Seq<BlockData>, id: Material) -> Option<int>
    decreases blocks.len(),
{
    if blocks.len() == 0 {
        None
    } else if blocks[0].id == id {
        Some(0)
    } else {
        match spec_lookup(blocks.skip(1), id) {
            Some(i) => Some(i + 1),
            None => None,
        }
    }
}

/// Whether the catalog treats the material as opaque: a registered
/// material is as opaque as its first catalog entry says; an id missing
/// from the catalog falls back to opaque, so that a catalog gap shows up
/// as visible geometry instead of a crash or a hole.
pub open spec fn spec_opaque(blocks: Seq<BlockData>, id: Material) -> bool {
    match spec_lookup(blocks, id) {
        Some(i) => blocks[i].opaque,
        None => true,
    }
}

impl BlockRegistry {
    /// The registered entries, in registration order.
    pub closed spec fn view(&self) -> Seq<BlockData> {
        self.blocks@
    }

    /// Creates an empty catalog.
    pub fn new() -> (r: BlockRegistry)
        ensures
            r@ == Seq::<BlockData>::empty(),
    {
        BlockRegistry { blocks: Vec::new() }
    }

    /// Registers a new block type.
    pub fn register_data(&mut self, data: BlockData)
        ensures
            final(self)@ == old(self)@.push(data),
    {
        self.blocks.push(data);
    }

    /// Returns the catalog entry of a given block id: the first entry
    /// registered under that id, or `None` if the id is unknown.
    pub fn block_data(&self, id: Material) -> (r: Option<&BlockData>)
        ensures
            match r {
                Some(data) => spec_lookup(self@, id) matches Some(i) && *data == self@[i],
                None => spec_lookup(self@, id) is None,
            },
    {
        let n = self.blocks.len();
        let mut k: usize = 0;
        proof {
            assert(self@.skip(0) =~= self@);
        }
        while k < n
            invariant
                n == self.blocks.len(),
                0 <= k <= n,
                spec_lookup(self@.skip(k as int), id) matches Some(i) ==>
                    spec_lookup(self@, id) == Some(i + k),
                spec_lookup(self@.skip(k as int), id) is None ==> spec_lookup(self@, id) is None,
                forall|j: int| 0 <= j < k ==> self@[j].id != id,
            decreases n - k,
        {
            proof {
                assert(self@.skip(k as int)[0] == self@[k as int]);
                assert(self@.skip(k as int).skip(1) =~= self@.skip(k as int + 1));
            }
            if self.blocks[k].id == id {
                proof {
                    assert(spec_lookup(self@.skip(k as int), id) == Some(0int));
                }
                return Some(&self.blocks[k]);
            }
            k = k + 1;
        }
        proof {
            assert(self@.skip(n as int) =~= Seq::<BlockData>::empty());
            assert(spec_lookup(self@.skip(n as int), id) is None);
        }
        None
    }

    /// Returns all registered block types, in registration order.
    pub fn blocks(&self) -> (r: &Vec<BlockData>)
        ensures
            r@ == self@,
    {
        &self.blocks
    }

    /// Whether the catalog treats the given material as opaque (see
    /// [`spec_opaque`]): registered ids as their entry says, unknown ids
    /// by the opaque fallback.
    pub fn material_opaque(&self, id: Material) -> (r: bool)
        ensures
            r == spec_opaque(self@, id),
    {
        match self.block_data(id) {
            Some(data) => data.opaque,
            None => true,
        }
    }
}

} // verus!

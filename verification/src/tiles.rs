//! Identifiers for tiles, tilesets, positions and maps.

use vstd::prelude::*;

verus! {

/// Identifies a tileset known to the registry.
pub type TilesetId = u8;

/// Identifies a placeable tile: the tileset its family belongs to, the
/// group (family of interchangeable variants) within that tileset, and
/// the variant within the group.
///
/// Conflict decisions mostly compare tiles by group, not by full
/// identity: two ids are group-equal when tileset and group match,
/// whatever their variants.
#[derive(Debug, Clone, Copy, PartialEq, Eq, Hash, Structural)]
pub struct TileId {
    /// The tileset this tile's group belongs to.
    pub tileset_id: TilesetId,
    /// The group (family) within the tileset.
    pub group_id: u32,
    /// The variant within the group.
    pub variant: u32,
}

impl TileId {
    /// Group equality: same tileset and same group, any variant.
    pub open spec fn group_eq(self, other: TileId) -> bool {
        self.tileset_id == other.tileset_id && self.group_id == other.group_id
    }

    /// Returns whether `self` and `other` belong to the same tile group.
    pub fn eq_tile_group(&self, other: &TileId) -> (r: bool)
        ensures
            r == self.group_eq(*other),
    {
        self.tileset_id == other.tileset_id && self.group_id == other.group_id
    }
}

/// An integer 2D cell coordinate, scoped to one (map, layer) pair.
#[derive(Debug, Clone, Copy, PartialEq, Eq, Hash, Structural)]
pub struct TilePos {
    pub x: u32,
    pub y: u32,
}

impl TilePos {
    pub fn new(x: u32, y: u32) -> (r: TilePos)
        ensures
            r == (TilePos { x, y }),
    {
        TilePos { x, y }
    }
}

/// An opaque small identifier for a tilemap instance, convertible to a
/// stable numeric key.
pub trait MapId {
    /// The numeric key this map identifier stands for.
    spec fn key_spec(&self) -> u16;

    /// Converts the identifier to its numeric key.
    fn to_key(&self) -> (k: u16)
        ensures
            k == self.key_spec(),
    ;
}

impl MapId for u16 {
    open spec fn key_spec(&self) -> u16 {
        *self
    }

    fn to_key(&self) -> (k: u16)
        ensures
            k == self.key_spec(),
    {
        *self
    }
}

/// A handle to a spawned tile, as issued by the tile store.
#[derive(Debug, Clone, Copy, PartialEq, Eq, Hash, Structural)]
pub struct Entity {
    /// The store slot this handle names.
    pub id: u64,
}

} // verus!

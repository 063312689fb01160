//! Auto-tile identities and the cascade notification record.
//!
//! An auto-tile is a tile whose visual variant depends on its neighbors.
//! When an occupant carrying an auto-tile identity is removed, the engine
//! queues exactly one [`RemoveAutoTileEvent`] so that an external resolver
//! can recompute the neighborhood. Delivery is fire-and-forget: the engine
//! only appends to an outbound queue that the integration layer drains.

use vstd::prelude::*;
use crate::tiles::{Entity, TilePos, TilesetId};

verus! {

/// The auto-tile identity attached to a spawned tile: which group of
/// which tileset drives its neighbor-dependent variant selection.
#[derive(Debug, Clone, Copy, PartialEq, Eq, Hash, Structural)]
pub struct AutoTileId {
    /// The group whose variants are selected by neighborhood.
    pub group_id: u32,
    /// The tileset that group belongs to.
    pub tileset_id: TilesetId,
}

/// The (map, layer) plane a tile belongs to: the parent reference carried
/// by a cascade notification.
#[derive(Debug, Clone, Copy, PartialEq, Eq, Hash, Structural)]
pub struct TileParent {
    /// Numeric key of the owning map.
    pub map_key: u16,
    /// Layer within that map.
    pub layer_id: u16,
}

/// A one-shot notification that a tile with auto-tile metadata was
/// removed and its neighborhood needs recomputation.
#[derive(Debug, Clone, Copy, PartialEq, Eq, Hash, Structural)]
pub struct RemoveAutoTileEvent {
    /// The removed tile's handle.
    pub entity: Entity,
    /// The cell the tile occupied.
    pub pos: TilePos,
    /// The (map, layer) plane it occupied.
    pub parent: TileParent,
    /// The auto-tile identity it carried.
    pub auto_id: AutoTileId,
}

} // verus!

//! The placement engine: decision rules for placing, replacing,
//! toggling and removing tiles, and the cascade notifications that
//! follow removals of auto-tiles.
//!
//! Every operation takes a tile identifier, a cell position and a
//! (map, layer) address, resolves the identifier against the registry
//! first — failing fast with no mutation — and then applies its
//! decision rule against the current occupant of the cell:
//!
//! * [`TilePlacer::place`] overwrites unconditionally;
//! * [`TilePlacer::try_place`] rejects any occupant;
//! * [`TilePlacer::replace`] rejects only a group-equal occupant;
//! * [`TilePlacer::toggle`] removes any occupant, else places;
//! * [`TilePlacer::toggle_matching`] removes a group-equal occupant,
//!   rejects any other, else places;
//! * [`TilePlacer::remove`] clears the cell, succeeding even when it
//!   was already empty.
//!
//! Each operation's full effect is stated by a `*_post` predicate, so
//! that properties spanning several calls can be proved from the
//! predicates alone (see [`crate::laws`]).

use vstd::prelude::*;
use crate::tiles::{Entity, MapId, TileId, TilePos, TilesetId};
use crate::auto::{AutoTileId, RemoveAutoTileEvent, TileParent};
use crate::grid::{entries_map, CellKey, GridIndex, Occupant};
use crate::registry::{TileRecord, TileRegistry};

verus! {

/// A failure reported by the underlying storage layer.
#[derive(Debug, Clone, Copy, PartialEq, Eq, Hash, Structural)]
pub enum StorageError {
    /// The addressed layer does not exist in the store.
    MissingLayer {
        /// Numeric key of the addressed map.
        map_key: u16,
        /// The addressed layer within that map.
        layer_id: u16,
    },
}

/// Errors related to the placement of tiles.
#[derive(Debug, Clone, Copy, PartialEq, Eq)]
pub enum TilePlacementError {
    /// A tile already exists at the given coordinate and the
    /// operation's policy forbids overwriting it.
    TileAlreadyExists {
        /// The ID of the new tile to be placed.
        new: TileId,
        /// The ID of the existing tile, if it could be resolved.
        existing: Option<TileId>,
        /// The desired/occupied tile coordinate.
        pos: TilePos,
    },
    /// The tileset does not exist or is invalid.
    InvalidTileset(TilesetId),
    /// The tile does not exist or is invalid within its tileset.
    InvalidTile(TileId),
    /// The underlying storage layer reported a failure; it is wrapped
    /// and re-surfaced verbatim.
    MapError(StorageError),
}

/// How a tile was placed or removed, so the caller can respond with
/// cleanup or a secondary action.
#[derive(Debug, Clone, Copy, PartialEq)]
pub enum PlacedTile {
    /// A tile was added.
    Added {
        /// The superseded occupant, if the cell was occupied.
        old_tile: Option<(Entity, Option<TileId>)>,
        /// The newly placed occupant.
        new_tile: (Entity, TileId),
    },
    /// A tile was removed.
    Removed {
        /// The removed occupant.
        old_tile: Option<(Entity, Option<TileId>)>,
    },
}

/// A result type alias for tile placement.
pub type TilePlacementResult = Result<PlacedTile, TilePlacementError>;

/// One slot of the tile store: what the engine knows about a spawned
/// tile handle.
#[derive(Debug, Clone, Copy, PartialEq, Eq)]
pub struct StoredTile {
    /// Whether the handle is still spawned.
    pub alive: bool,
    /// The cell position the tile occupies.
    pub pos: TilePos,
    /// The (map, layer) plane the tile occupies.
    pub parent: TileParent,
    /// The tile's index within its tileset.
    pub index: u32,
    /// The auto-tile identity attached to the handle, if any.
    pub auto_id: Option<AutoTileId>,
}

/// The placement engine. It owns the occupancy index, the tile store,
/// the registered layers and the outbound cascade queue, and consults
/// the read-only registry for every resolution.
#[derive(Debug)]
pub struct TilePlacer {
    registry: TileRegistry,
    grid: GridIndex,
    store: Vec<StoredTile>,
    events: Vec<RemoveAutoTileEvent>,
    layers: Vec<TileParent>,
    auto_tiles_enabled: bool,
}

/// The cell addressed by a position on a (map, layer) plane.
pub open spec fn cell_of(pos: TilePos, map_key: u16, layer_id: u16) -> CellKey {
    CellKey { map_key, layer_id, pos }
}

/// Appending to a sequence adds exactly one member.
proof fn lemma_push_contains<T>(s: Seq<T>, e: T)
    ensures
        forall|x: T| #[trigger] s.push(e).contains(x) <==> (s.contains(x) || x == e),
{
    assert forall|x: T| #[trigger] s.push(e).contains(x) implies (s.contains(x) || x == e) by {
        let i = choose|i: int| 0 <= i < s.push(e).len() && s.push(e)[i] == x;
        if i < s.len() {
            assert(s[i] == x);
        }
    };
    assert forall|x: T| (s.contains(x) || x == e) implies #[trigger] s.push(e).contains(x) by {
        if s.contains(x) {
            let i = choose|i: int| 0 <= i < s.len() && s[i] == x;
            assert(s.push(e)[i] == x);
        } else {
            assert(s.push(e)[s.len() as int] == x);
        }
    };
}

impl TilePlacer {
    /// The registry the engine resolves against.
    pub closed spec fn registry(self) -> TileRegistry {
        self.registry
    }

    /// The occupancy relation: which occupant holds which cell.
    pub closed spec fn grid_view(self) -> Map<CellKey, Occupant> {
        self.grid@
    }

    /// The tile store, indexed by handle.
    pub closed spec fn store_view(self) -> Seq<StoredTile> {
        self.store@
    }

    /// The outbound cascade queue, oldest first.
    pub closed spec fn events_view(self) -> Seq<RemoveAutoTileEvent> {
        self.events@
    }

    /// The registered (map, layer) planes.
    pub closed spec fn layers_view(self) -> Seq<TileParent> {
        self.layers@
    }

    /// Whether the addressed layer exists in the store.
    pub open spec fn layer_known(self, map_key: u16, layer_id: u16) -> bool {
        self.layers_view().contains(TileParent { map_key, layer_id })
    }

    /// Whether the auto-tile capability is enabled.
    pub closed spec fn autos_enabled(self) -> bool {
        self.auto_tiles_enabled
    }

    /// The engine's internal well-formedness: the occupancy index
    /// holds at most one entry per cell.
    pub closed spec fn wf(self) -> bool {
        self.grid.wf()
    }

    /// A fresh engine around the given registry, with nothing placed,
    /// no layer registered and an empty cascade queue.
    pub fn new(registry: TileRegistry, auto_tiles_enabled: bool) -> (r: TilePlacer)
        ensures
            r.wf(),
            r.registry() == registry,
            r.grid_view() == Map::<CellKey, Occupant>::empty(),
            r.store_view() == Seq::<StoredTile>::empty(),
            r.events_view() == Seq::<RemoveAutoTileEvent>::empty(),
            r.layers_view() == Seq::<TileParent>::empty(),
            r.autos_enabled() == auto_tiles_enabled,
    {
        TilePlacer {
            registry,
            grid: GridIndex::new(),
            store: Vec::new(),
            events: Vec::new(),
            layers: Vec::new(),
            auto_tiles_enabled,
        }
    }

    /// Registers a (map, layer) plane so that tiles can be placed on
    /// it. Registering it again is a no-op.
    pub fn add_layer<M: MapId>(&mut self, map_id: M, layer_id: u16)
        requires
            old(self).wf(),
        ensures
            final(self).wf(),
            forall|mk: u16, lid: u16|
                #[trigger] final(self).layer_known(mk, lid) <==> (old(self).layer_known(mk, lid)
                    || (mk == map_id.key_spec() && lid == layer_id)),
            final(self).grid_view() == old(self).grid_view(),
            final(self).store_view() == old(self).store_view(),
            final(self).events_view() == old(self).events_view(),
            final(self).registry() == old(self).registry(),
            final(self).autos_enabled() == old(self).autos_enabled(),
    {
        let map_key = map_id.to_key();
        let parent = TileParent { map_key, layer_id };
        self.layers.push(parent);
        proof {
            lemma_push_contains(old(self).layers@, parent);
        }
    }

    /// Whether the addressed layer has been registered.
    pub fn layer_exists(&self, map_key: u16, layer_id: u16) -> (r: bool)
        ensures
            r == self.layer_known(map_key, layer_id),
    {
        let n = self.layers.len();
        for i in 0..n
            invariant
                n == self.layers.len(),
                forall|j: int| 0 <= j < i
                    ==> self.layers@[j] != (TileParent { map_key, layer_id }),
        {
            let p = self.layers[i];
            if p.map_key == map_key && p.layer_id == layer_id {
                return true;
            }
        }
        false
    }

    /// The current occupant of a cell, if any. No side effect.
    pub fn get_existing<M: MapId>(&self, pos: TilePos, map_id: M, layer_id: u16) -> (r: Option<
        Occupant,
    >)
        requires
            self.wf(),
        ensures
            r == self.grid_view().get(cell_of(pos, map_id.key_spec(), layer_id)),
    {
        let map_key = map_id.to_key();
        self.grid.get(&CellKey { map_key, layer_id, pos })
    }

    /// The cascade notifications queued so far, oldest first.
    pub fn pending_cascades(&self) -> (r: &Vec<RemoveAutoTileEvent>)
        ensures
            r@ == self.events_view(),
    {
        &self.events
    }

    /// Hands the queued cascade notifications to the caller and clears
    /// the queue: the integration layer drains this each tick and
    /// forwards the records to the auto-tile resolver. Every
    /// notification was queued only after its cell was already cleared,
    /// so a consumer may assume the cell is empty.
    pub fn drain_cascades(&mut self) -> (r: Vec<RemoveAutoTileEvent>)
        requires
            old(self).wf(),
        ensures
            final(self).wf(),
            r@ == old(self).events_view(),
            final(self).events_view() == Seq::<RemoveAutoTileEvent>::empty(),
            final(self).grid_view() == old(self).grid_view(),
            final(self).store_view() == old(self).store_view(),
            final(self).registry() == old(self).registry(),
            final(self).layers_view() == old(self).layers_view(),
            final(self).autos_enabled() == old(self).autos_enabled(),
    {
        let n = self.events.len();
        let mut out: Vec<RemoveAutoTileEvent> = Vec::new();
        for i in 0..n
            invariant
                n == self.events.len(),
                self.events@ == old(self).events@,
                out@ == old(self).events@.take(i as int),
        {
            out.push(self.events[i]);
            proof {
                assert(out@ =~= old(self).events@.take(i + 1));
            }
        }
        self.events.clear();
        proof {
            assert(old(self).events@.take(n as int) =~= old(self).events@);
        }
        out
    }

    /// Get the registry record (the metadata) matching the given
    /// `TileId`.
    fn get_tile_data(&self, tile_id: &TileId) -> (r: Result<TileRecord, TilePlacementError>)
        ensures
            r == self.registry().spec_resolve(*tile_id),
    {
        self.registry.resolve_metadata(tile_id)
    }
}

/// The cascade notification that clearing `e`'s auto-tile identity in
/// `pre` would emit: present exactly when the store knows `e` as a
/// live tile carrying an auto-tile identity. When the record cannot be
/// found, no notification is emitted — that inconsistency is
/// tolerated, not an error.
pub open spec fn strip_event(pre: TilePlacer, e: Entity) -> Option<RemoveAutoTileEvent> {
    if (e.id as int) < (pre.store_view().len() as int) {
        let rec = pre.store_view()[e.id as int];
        match rec.auto_id {
            Some(a) => if rec.alive {
                Some(RemoveAutoTileEvent { entity: e, pos: rec.pos, parent: rec.parent, auto_id: a })
            } else {
                None
            },
            None => None,
        }
    } else {
        None
    }
}

/// The queue that results from appending `ev` to `pre`'s queue, if
/// there is an event to append.
pub open spec fn queue_after(pre: TilePlacer, ev: Option<RemoveAutoTileEvent>) -> Seq<
    RemoveAutoTileEvent,
> {
    match ev {
        Some(e) => pre.events_view().push(e),
        None => pre.events_view(),
    }
}

/// The auto-tile identity a freshly placed tile carries: present
/// exactly when the capability is enabled and the tile's metadata
/// marks it as an auto-tile.
pub open spec fn placed_auto_id(pre: TilePlacer, id: TileId, rec: TileRecord) -> Option<
    AutoTileId,
> {
    if pre.autos_enabled() && rec.is_auto_tile {
        Some(AutoTileId { group_id: id.group_id, tileset_id: id.tileset_id })
    } else {
        None
    }
}

/// What installing `id` at `key` does, once `id` has resolved to
/// `rec`: the storage-layer check, the handle choice (reuse the
/// occupant's handle if the store knows it, else a fresh one), the
/// store write, the occupancy update, the strip cascade when an
/// auto-tile identity is overwritten by a non-auto tile, and the
/// `Added` outcome.
pub open spec fn install_post(
    pre: TilePlacer,
    post: TilePlacer,
    id: TileId,
    rec: TileRecord,
    key: CellKey,
    r: TilePlacementResult,
) -> bool {
    if !pre.layer_known(key.map_key, key.layer_id) {
        post == pre && r == Err::<PlacedTile, TilePlacementError>(
            TilePlacementError::MapError(
                StorageError::MissingLayer { map_key: key.map_key, layer_id: key.layer_id },
            ),
        )
    } else {
        let prev = pre.grid_view().get(key);
        let reuse = match prev {
            Some(o) => (o.entity.id as int) < (pre.store_view().len() as int),
            None => false,
        };
        let h = match prev {
            Some(o) => if (o.entity.id as int) < (pre.store_view().len() as int) {
                o.entity
            } else {
                Entity { id: pre.store_view().len() as u64 }
            },
            None => Entity { id: pre.store_view().len() as u64 },
        };
        let prev_auto = if reuse {
            pre.store_view()[h.id as int].auto_id
        } else {
            None
        };
        let tgt = placed_auto_id(pre, id, rec);
        let parent = TileParent { map_key: key.map_key, layer_id: key.layer_id };
        let stored = StoredTile {
            alive: true,
            pos: key.pos,
            parent,
            index: rec.index,
            auto_id: tgt,
        };
        post.grid_view() == pre.grid_view().insert(key, Occupant { entity: h, id: Some(id) })
            && post.store_view() == (if reuse {
            pre.store_view().update(h.id as int, stored)
        } else {
            pre.store_view().push(stored)
        }) && post.events_view() == (match (tgt, prev_auto) {
            (Option::None, Option::Some(a)) => pre.events_view().push(
                RemoveAutoTileEvent { entity: h, pos: key.pos, parent, auto_id: a },
            ),
            _ => pre.events_view(),
        }) && post.registry() == pre.registry() && post.layers_view() == pre.layers_view()
            && post.autos_enabled() == pre.autos_enabled() && r == Ok::<
            PlacedTile,
            TilePlacementError,
        >(
            PlacedTile::Added {
                old_tile: match prev {
                    Some(o) => Some((o.entity, o.id)),
                    None => None,
                },
                new_tile: (h, id),
            },
        )
    }
}

/// What clearing the cell at `key` does: nothing on an empty cell;
/// otherwise the occupant leaves the index, its store record is
/// despawned, and — exactly when the record carried an auto-tile
/// identity — one cascade notification is queued, after the cell is
/// already cleared.
pub open spec fn clear_post(pre: TilePlacer, post: TilePlacer, key: CellKey) -> bool {
    match pre.grid_view().get(key) {
        None => post.grid_view() == pre.grid_view() && post.store_view() == pre.store_view()
            && post.events_view() == pre.events_view() && post.registry() == pre.registry()
            && post.layers_view() == pre.layers_view() && post.autos_enabled()
            == pre.autos_enabled(),
        Some(occ) => {
            let e = occ.entity;
            post.grid_view() == pre.grid_view().remove(key) && post.store_view() == (if (
            e.id as int) < (pre.store_view().len() as int) {
                pre.store_view().update(
                    e.id as int,
                    StoredTile {
                        alive: false,
                        auto_id: None,
                        ..pre.store_view()[e.id as int]
                    },
                )
            } else {
                pre.store_view()
            }) && post.events_view() == queue_after(pre, strip_event(pre, e))
                && post.registry() == pre.registry() && post.layers_view() == pre.layers_view()
                && post.autos_enabled() == pre.autos_enabled()
        },
    }
}

/// `place`: resolve, then overwrite unconditionally.
pub open spec fn place_post(
    pre: TilePlacer,
    post: TilePlacer,
    id: TileId,
    pos: TilePos,
    map_key: u16,
    layer_id: u16,
    r: TilePlacementResult,
) -> bool {
    match pre.registry().spec_resolve(id) {
        Err(e) => post == pre && r == Err::<PlacedTile, TilePlacementError>(e),
        Ok(rec) => install_post(pre, post, id, rec, cell_of(pos, map_key, layer_id), r),
    }
}

/// `try_place`: resolve, then install only into an empty cell; any
/// occupant at all is a conflict.
pub open spec fn try_place_post(
    pre: TilePlacer,
    post: TilePlacer,
    id: TileId,
    pos: TilePos,
    map_key: u16,
    layer_id: u16,
    r: TilePlacementResult,
) -> bool {
    let key = cell_of(pos, map_key, layer_id);
    match pre.registry().spec_resolve(id) {
        Err(e) => post == pre && r == Err::<PlacedTile, TilePlacementError>(e),
        Ok(rec) => match pre.grid_view().get(key) {
            Some(occ) => post == pre && r == Err::<PlacedTile, TilePlacementError>(
                TilePlacementError::TileAlreadyExists { new: id, existing: occ.id, pos },
            ),
            None => install_post(pre, post, id, rec, key, r),
        },
    }
}

/// `replace`: resolve, then install unless the occupant is group-equal
/// to the new tile; conflicts are scoped to the tile group.
pub open spec fn replace_post(
    pre: TilePlacer,
    post: TilePlacer,
    id: TileId,
    pos: TilePos,
    map_key: u16,
    layer_id: u16,
    r: TilePlacementResult,
) -> bool {
    let key = cell_of(pos, map_key, layer_id);
    match pre.registry().spec_resolve(id) {
        Err(e) => post == pre && r == Err::<PlacedTile, TilePlacementError>(e),
        Ok(rec) => match pre.grid_view().get(key) {
            Some(occ) => if occ.id matches Some(existing_id) && existing_id.group_eq(id) {
                post == pre && r == Err::<PlacedTile, TilePlacementError>(
                    TilePlacementError::TileAlreadyExists { new: id, existing: occ.id, pos },
                )
            } else {
                install_post(pre, post, id, rec, key, r)
            },
            None => install_post(pre, post, id, rec, key, r),
        },
    }
}

/// `toggle`: resolve, then remove any occupant, else install.
pub open spec fn toggle_post(
    pre: TilePlacer,
    post: TilePlacer,
    id: TileId,
    pos: TilePos,
    map_key: u16,
    layer_id: u16,
    r: TilePlacementResult,
) -> bool {
    let key = cell_of(pos, map_key, layer_id);
    match pre.registry().spec_resolve(id) {
        Err(e) => post == pre && r == Err::<PlacedTile, TilePlacementError>(e),
        Ok(rec) => match pre.grid_view().get(key) {
            Some(occ) => clear_post(pre, post, key) && r == Ok::<PlacedTile, TilePlacementError>(
                PlacedTile::Removed { old_tile: Some((occ.entity, occ.id)) },
            ),
            None => install_post(pre, post, id, rec, key, r),
        },
    }
}

/// `toggle_matching`: resolve, then remove a group-equal occupant,
/// reject any other occupant, else install.
pub open spec fn toggle_matching_post(
    pre: TilePlacer,
    post: TilePlacer,
    id: TileId,
    pos: TilePos,
    map_key: u16,
    layer_id: u16,
    r: TilePlacementResult,
) -> bool {
    let key = cell_of(pos, map_key, layer_id);
    match pre.registry().spec_resolve(id) {
        Err(e) => post == pre && r == Err::<PlacedTile, TilePlacementError>(e),
        Ok(rec) => match pre.grid_view().get(key) {
            Some(occ) => if occ.id matches Some(existing_id) && existing_id.group_eq(id) {
                clear_post(pre, post, key) && r == Ok::<PlacedTile, TilePlacementError>(
                    PlacedTile::Removed { old_tile: Some((occ.entity, occ.id)) },
                )
            } else {
                post == pre && r == Err::<PlacedTile, TilePlacementError>(
                    TilePlacementError::TileAlreadyExists { new: id, existing: occ.id, pos },
                )
            },
            None => install_post(pre, post, id, rec, key, r),
        },
    }
}

/// `remove`: clear the cell; success is owed on every input, occupied
/// or not.
pub open spec fn remove_post(
    pre: TilePlacer,
    post: TilePlacer,
    pos: TilePos,
    map_key: u16,
    layer_id: u16,
    r: Result<(), TilePlacementError>,
) -> bool {
    clear_post(pre, post, cell_of(pos, map_key, layer_id)) && r == Ok::<(), TilePlacementError>(())
}

/// `update`: re-resolve a handle's auto-tile metadata in place. On a
/// resolution error nothing changes; on success the handle's record —
/// if the store knows it — gets the identity the resolved metadata
/// calls for, with the strip cascade queued when an identity is
/// cleared. An unknown handle is tolerated as a no-op.
pub open spec fn update_post(
    pre: TilePlacer,
    post: TilePlacer,
    id: TileId,
    entity: Entity,
    r: Result<(), TilePlacementError>,
) -> bool {
    match pre.registry().spec_resolve(id) {
        Err(e) => post == pre && r == Err::<(), TilePlacementError>(e),
        Ok(rec) => r == Ok::<(), TilePlacementError>(()) && (if (entity.id as int) < (
        pre.store_view().len() as int) {
            let tgt = placed_auto_id(pre, id, rec);
            post.store_view() == pre.store_view().update(
                entity.id as int,
                StoredTile { auto_id: tgt, ..pre.store_view()[entity.id as int] },
            ) && post.events_view() == (if tgt is None {
                queue_after(pre, strip_event(pre, entity))
            } else {
                pre.events_view()
            }) && post.grid_view() == pre.grid_view() && post.registry() == pre.registry()
                && post.layers_view() == pre.layers_view() && post.autos_enabled()
                == pre.autos_enabled()
        } else {
            post.grid_view() == pre.grid_view() && post.store_view() == pre.store_view()
                && post.events_view() == pre.events_view() && post.registry() == pre.registry()
                && post.layers_view() == pre.layers_view() && post.autos_enabled()
                == pre.autos_enabled()
        }),
    }
}

impl TilePlacer {
    /// Queues the cascade notification for `entity` if its record is a
    /// live tile carrying an auto-tile identity; reports whether one
    /// was queued. The record itself is left untouched.
    fn try_remove_auto_tile(&mut self, entity: Entity) -> (r: bool)
        requires
            old(self).wf(),
        ensures
            final(self).wf(),
            r == (strip_event(*old(self), entity) is Some),
            final(self).events_view() == queue_after(*old(self), strip_event(*old(self), entity)),
            final(self).grid_view() == old(self).grid_view(),
            final(self).store_view() == old(self).store_view(),
            final(self).registry() == old(self).registry(),
            final(self).layers_view() == old(self).layers_view(),
            final(self).autos_enabled() == old(self).autos_enabled(),
    {
        if entity.id < self.store.len() as u64 {
            let i = entity.id as usize;
            let rec = self.store[i];
            if rec.alive {
                if let Some(a) = rec.auto_id {
                    let event = RemoveAutoTileEvent {
                        entity,
                        pos: rec.pos,
                        parent: rec.parent,
                        auto_id: a,
                    };
                    self.events.push(event);
                    return true;
                }
            }
        }
        false
    }

    /// Attaches or refreshes `entity`'s auto-tile identity from the
    /// resolved metadata of `tile_id`; when the metadata does not call
    /// for one (or does not resolve), any previously attached identity
    /// is stripped and the removal-cascade path is invoked for
    /// cleanup.
    fn apply_auto_tile(&mut self, tile_id: &TileId, entity: Entity)
        requires
            old(self).wf(),
        ensures
            final(self).wf(),
            ({
                let tgt = match old(self).registry().spec_resolve(*tile_id) {
                    Ok(rec) => placed_auto_id(*old(self), *tile_id, rec),
                    Err(_) => None,
                };
                ((entity.id as int) < (old(self).store_view().len() as int) ==> (
                final(self).store_view() == old(self).store_view().update(
                    entity.id as int,
                    StoredTile {
                        auto_id: tgt,
                        ..old(self).store_view()[entity.id as int]
                    },
                ))) && ((entity.id as int) >= (old(self).store_view().len() as int)
                    ==> final(self).store_view() == old(self).store_view()) && final(
                self).events_view() == (if tgt is None {
                    queue_after(*old(self), strip_event(*old(self), entity))
                } else {
                    old(self).events_view()
                })
            }),
            final(self).grid_view() == old(self).grid_view(),
            final(self).registry() == old(self).registry(),
            final(self).layers_view() == old(self).layers_view(),
            final(self).autos_enabled() == old(self).autos_enabled(),
    {
        let is_auto = match self.get_tile_data(tile_id) {
            Ok(data) => data.is_auto_tile,
            Err(_) => false,
        };
        if self.auto_tiles_enabled && is_auto {
            if entity.id < self.store.len() as u64 {
                let i = entity.id as usize;
                let slot = &mut self.store[i];
                slot.auto_id = Some(
                    AutoTileId { group_id: tile_id.group_id, tileset_id: tile_id.tileset_id },
                );
            }
        } else {
            self.try_remove_auto_tile(entity);
            if entity.id < self.store.len() as u64 {
                let i = entity.id as usize;
                let slot = &mut self.store[i];
                slot.auto_id = None;
            }
        }
    }

    /// Installs `tile_id` at the addressed cell with no conflict
    /// check: resolves, verifies the layer exists, writes the store
    /// (reusing the occupant's handle when the store knows it),
    /// updates the occupancy index and reconciles the auto-tile
    /// identity.
    fn place_unchecked(&mut self, tile_id: TileId, pos: TilePos, map_key: u16, layer_id: u16) -> (r:
        TilePlacementResult)
        requires
            old(self).wf(),
        ensures
            final(self).wf(),
            place_post(*old(self), *final(self), tile_id, pos, map_key, layer_id, r),
    {
        let data = match self.get_tile_data(&tile_id) {
            Ok(d) => d,
            Err(e) => {
                return Err(e);
            },
        };
        if !self.layer_exists(map_key, layer_id) {
            return Err(TilePlacementError::MapError(
                StorageError::MissingLayer { map_key, layer_id },
            ));
        }
        let key = CellKey { map_key, layer_id, pos };
        let prev = self.grid.get(&key);
        let parent = TileParent { map_key, layer_id };
        // Write the store slot: keep any attached auto-tile identity
        // for now so that the reconciliation below can observe it.
        let h: Entity;
        match prev {
            Some(occ) => {
                if occ.entity.id < self.store.len() as u64 {
                    let i = occ.entity.id as usize;
                    let kept_auto = self.store[i].auto_id;
                    let slot = &mut self.store[i];
                    *slot = StoredTile {
                        alive: true,
                        pos,
                        parent,
                        index: data.index,
                        auto_id: kept_auto,
                    };
                    h = occ.entity;
                } else {
                    h = Entity { id: self.store.len() as u64 };
                    self.store.push(
                        StoredTile { alive: true, pos, parent, index: data.index, auto_id: None },
                    );
                }
            },
            None => {
                h = Entity { id: self.store.len() as u64 };
                self.store.push(
                    StoredTile { alive: true, pos, parent, index: data.index, auto_id: None },
                );
            },
        }
        self.grid.insert(key, Occupant { entity: h, id: Some(tile_id) });
        self.apply_auto_tile(&tile_id, h);
        proof {
            assert(final(self).store_view() =~= (if (match old(self).grid_view().get(key) {
                Some(o) => (o.entity.id as int) < (old(self).store_view().len() as int),
                None => false,
            }) {
                old(self).store_view().update(
                    h.id as int,
                    StoredTile {
                        alive: true,
                        pos,
                        parent,
                        index: data.index,
                        auto_id: placed_auto_id(*old(self), tile_id, data),
                    },
                )
            } else {
                old(self).store_view().push(
                    StoredTile {
                        alive: true,
                        pos,
                        parent,
                        index: data.index,
                        auto_id: placed_auto_id(*old(self), tile_id, data),
                    },
                )
            }));
        }
        Ok(
            PlacedTile::Added {
                old_tile: match prev {
                    Some(o) => Some((o.entity, o.id)),
                    None => None,
                },
                new_tile: (h, tile_id),
            },
        )
    }

    /// Clears the cell at `key`: the occupant leaves the index, the
    /// cascade is queued (only after the cell is cleared) and the
    /// store record is despawned. Clearing an empty cell does
    /// nothing.
    fn clear_cell(&mut self, key: CellKey)
        requires
            old(self).wf(),
        ensures
            final(self).wf(),
            clear_post(*old(self), *final(self), key),
    {
        let occ = match self.grid.remove(&key) {
            Some(o) => o,
            None => {
                proof {
                    assert(self.grid_view() =~= old(self).grid_view());
                }
                return;
            },
        };
        let e = occ.entity;
        self.try_remove_auto_tile(e);
        if e.id < self.store.len() as u64 {
            let i = e.id as usize;
            let slot = &mut self.store[i];
            slot.alive = false;
            slot.auto_id = None;
        }
    }

    /// Places a tile, unconditionally overwriting any occupant: the
    /// escape hatch for callers that have already decided.
    pub fn place<M: MapId>(
        &mut self,
        tile_id: TileId,
        pos: TilePos,
        map_id: M,
        layer_id: u16,
    ) -> (r: TilePlacementResult)
        requires
            old(self).wf(),
        ensures
            final(self).wf(),
            place_post(*old(self), *final(self), tile_id, pos, map_id.key_spec(), layer_id, r),
    {
        let map_key = map_id.to_key();
        self.place_unchecked(tile_id, pos, map_key, layer_id)
    }

    /// Places a tile only if the cell is empty; any occupant at all is
    /// rejected with `TileAlreadyExists`.
    pub fn try_place<M: MapId>(
        &mut self,
        tile_id: TileId,
        pos: TilePos,
        map_id: M,
        layer_id: u16,
    ) -> (r: TilePlacementResult)
        requires
            old(self).wf(),
        ensures
            final(self).wf(),
            try_place_post(*old(self), *final(self), tile_id, pos, map_id.key_spec(), layer_id, r),
    {
        let map_key = map_id.to_key();
        if let Err(e) = self.get_tile_data(&tile_id) {
            return Err(e);
        }
        let key = CellKey { map_key, layer_id, pos };
        if let Some(existing) = self.grid.get(&key) {
            // Tile already exists -> don't place
            return Err(TilePlacementError::TileAlreadyExists {
                new: tile_id,
                existing: existing.id,
                pos,
            });
        }
        self.place_unchecked(tile_id, pos, map_key, layer_id)
    }

    /// Places a tile unless the occupant is of the same tile group;
    /// occupants of a different group are overwritten.
    pub fn replace<M: MapId>(
        &mut self,
        tile_id: TileId,
        pos: TilePos,
        map_id: M,
        layer_id: u16,
    ) -> (r: TilePlacementResult)
        requires
            old(self).wf(),
        ensures
            final(self).wf(),
            replace_post(*old(self), *final(self), tile_id, pos, map_id.key_spec(), layer_id, r),
    {
        let map_key = map_id.to_key();
        if let Err(e) = self.get_tile_data(&tile_id) {
            return Err(e);
        }
        let key = CellKey { map_key, layer_id, pos };
        if let Some(existing) = self.grid.get(&key) {
            // Check that the existing tile is of a different type
            if let Some(existing_id) = existing.id {
                if existing_id.eq_tile_group(&tile_id) {
                    return Err(TilePlacementError::TileAlreadyExists {
                        new: tile_id,
                        existing: existing.id,
                        pos,
                    });
                }
            }
        }
        self.place_unchecked(tile_id, pos, map_key, layer_id)
    }

    /// Removes the occupant if it is of the same tile group as the
    /// given tile, rejects occupants of a different group, and places
    /// the tile if the cell is empty.
    pub fn toggle_matching<M: MapId>(
        &mut self,
        tile_id: TileId,
        pos: TilePos,
        map_id: M,
        layer_id: u16,
    ) -> (r: TilePlacementResult)
        requires
            old(self).wf(),
        ensures
            final(self).wf(),
            toggle_matching_post(
                *old(self),
                *final(self),
                tile_id,
                pos,
                map_id.key_spec(),
                layer_id,
                r,
            ),
    {
        let map_key = map_id.to_key();
        if let Err(e) = self.get_tile_data(&tile_id) {
            return Err(e);
        }
        let key = CellKey { map_key, layer_id, pos };
        if let Some(existing) = self.grid.get(&key) {
            // Remove the existing tile if it matches
            if let Some(existing_id) = existing.id {
                if existing_id.eq_tile_group(&tile_id) {
                    self.clear_cell(key);
                    return Ok(PlacedTile::Removed {
                        old_tile: Some((existing.entity, Some(existing_id))),
                    });
                }
            }
            // Tile exists but did not match -> don't remove
            return Err(TilePlacementError::TileAlreadyExists {
                new: tile_id,
                existing: existing.id,
                pos,
            });
        }
        self.place_unchecked(tile_id, pos, map_key, layer_id)
    }

    /// Removes any occupant, and places the tile if the cell is
    /// empty: the self-inverting editing operation.
    pub fn toggle<M: MapId>(
        &mut self,
        tile_id: TileId,
        pos: TilePos,
        map_id: M,
        layer_id: u16,
    ) -> (r: TilePlacementResult)
        requires
            old(self).wf(),
        ensures
            final(self).wf(),
            toggle_post(*old(self), *final(self), tile_id, pos, map_id.key_spec(), layer_id, r),
    {
        let map_key = map_id.to_key();
        if let Err(e) = self.get_tile_data(&tile_id) {
            return Err(e);
        }
        let key = CellKey { map_key, layer_id, pos };
        if let Some(existing) = self.grid.get(&key) {
            self.clear_cell(key);
            return Ok(PlacedTile::Removed { old_tile: Some((existing.entity, existing.id)) });
        }
        self.place_unchecked(tile_id, pos, map_key, layer_id)
    }

    /// Clears a cell. Removing from an empty cell is a no-op that
    /// still succeeds; removing an occupant that carried an auto-tile
    /// identity queues exactly one cascade notification, after the
    /// cell is cleared.
    pub fn remove<M: MapId>(&mut self, pos: TilePos, map_id: M, layer_id: u16) -> (r: Result<
        (),
        TilePlacementError,
    >)
        requires
            old(self).wf(),
        ensures
            final(self).wf(),
            remove_post(*old(self), *final(self), pos, map_id.key_spec(), layer_id, r),
    {
        let map_key = map_id.to_key();
        self.clear_cell(CellKey { map_key, layer_id, pos });
        Ok(())
    }

    /// Re-resolves the auto-tile metadata of the tile behind `entity`
    /// and reconciles the identity attached to the handle; used after
    /// an external mutation of a tile's identity. Unknown handles are
    /// tolerated.
    pub fn update(&mut self, tile_id: TileId, entity: Entity) -> (r: Result<
        (),
        TilePlacementError,
    >)
        requires
            old(self).wf(),
        ensures
            final(self).wf(),
            update_post(*old(self), *final(self), tile_id, entity, r),
    {
        if let Err(e) = self.get_tile_data(&tile_id) {
            return Err(e);
        }
        self.apply_auto_tile(&tile_id, entity);
        Ok(())
    }
}

/// An in-progress layer: tiles staged against a single (map, layer)
/// plane, to be integrated into the live index as one unit. Staging
/// never touches the live index, so a batch that is abandoned leaves
/// no trace; whether to commit is the caller's decision.
#[derive(Debug)]
pub struct LayerBuilder {
    map_key: u16,
    layer_id: u16,
    staged: GridIndex,
}

impl LayerBuilder {
    /// Numeric key of the map this builder stages for.
    pub closed spec fn map_key(self) -> u16 {
        self.map_key
    }

    /// The layer this builder stages for.
    pub closed spec fn layer_id(self) -> u16 {
        self.layer_id
    }

    /// The staged cells: position to occupant, latest staging wins.
    pub closed spec fn staged_view(self) -> Map<CellKey, Occupant> {
        self.staged@
    }

    /// Every staged cell lies on this builder's own plane, and the
    /// staging index is well-formed.
    pub closed spec fn wf(self) -> bool {
        self.staged.wf() && forall|k: CellKey|
            #[trigger] self.staged@.contains_key(k) ==> k.map_key == self.map_key && k.layer_id
                == self.layer_id
    }

    /// An empty builder for the given plane.
    pub fn new<M: MapId>(map_id: M, layer_id: u16) -> (r: LayerBuilder)
        ensures
            r.wf(),
            r.map_key() == map_id.key_spec(),
            r.layer_id() == layer_id,
            r.staged_view() == Map::<CellKey, Occupant>::empty(),
    {
        LayerBuilder { map_key: map_id.to_key(), layer_id, staged: GridIndex::new() }
    }
}

/// `add_to_layer`: the batched variant of `place`, staged against a
/// builder instead of the live index. Resolution fails fast with no
/// mutation; on success a fresh handle is spawned, its record enters
/// the store, and the staged cell is installed — superseding any
/// earlier staging for the same position, as `place` would.
pub open spec fn add_to_layer_post(
    pre: TilePlacer,
    post: TilePlacer,
    b_pre: LayerBuilder,
    b_post: LayerBuilder,
    id: TileId,
    pos: TilePos,
    r: TilePlacementResult,
) -> bool {
    match pre.registry().spec_resolve(id) {
        Err(e) => post == pre && b_post == b_pre && r == Err::<PlacedTile, TilePlacementError>(e),
        Ok(rec) => {
            let key = cell_of(pos, b_pre.map_key(), b_pre.layer_id());
            let h = Entity { id: pre.store_view().len() as u64 };
            let prev = b_pre.staged_view().get(key);
            let parent = TileParent { map_key: b_pre.map_key(), layer_id: b_pre.layer_id() };
            let stored = StoredTile {
                alive: true,
                pos,
                parent,
                index: rec.index,
                auto_id: placed_auto_id(pre, id, rec),
            };
            post.store_view() == pre.store_view().push(stored) && post.grid_view()
                == pre.grid_view() && post.events_view() == pre.events_view() && post.registry()
                == pre.registry() && post.layers_view() == pre.layers_view()
                && post.autos_enabled() == pre.autos_enabled() && b_post.map_key()
                == b_pre.map_key() && b_post.layer_id() == b_pre.layer_id()
                && b_post.staged_view() == b_pre.staged_view().insert(
                key,
                Occupant { entity: h, id: Some(id) },
            ) && r == Ok::<PlacedTile, TilePlacementError>(
                PlacedTile::Added {
                    old_tile: match prev {
                        Some(o) => Some((o.entity, o.id)),
                        None => None,
                    },
                    new_tile: (h, id),
                },
            )
        },
    }
}

impl TilePlacer {
    /// Stages a tile into an in-progress layer builder, with the same
    /// contract as `place` but a deferred commit.
    pub fn add_to_layer(
        &mut self,
        tile_id: TileId,
        pos: TilePos,
        layer_builder: &mut LayerBuilder,
    ) -> (r: TilePlacementResult)
        requires
            old(self).wf(),
            old(layer_builder).wf(),
        ensures
            final(self).wf(),
            final(layer_builder).wf(),
            add_to_layer_post(
                *old(self),
                *final(self),
                *old(layer_builder),
                *final(layer_builder),
                tile_id,
                pos,
                r,
            ),
    {
        let data = match self.get_tile_data(&tile_id) {
            Ok(d) => d,
            Err(e) => {
                return Err(e);
            },
        };
        let key = CellKey {
            map_key: layer_builder.map_key,
            layer_id: layer_builder.layer_id,
            pos,
        };
        let h = Entity { id: self.store.len() as u64 };
        let parent = TileParent {
            map_key: layer_builder.map_key,
            layer_id: layer_builder.layer_id,
        };
        let auto_id = if self.auto_tiles_enabled && data.is_auto_tile {
            Some(AutoTileId { group_id: tile_id.group_id, tileset_id: tile_id.tileset_id })
        } else {
            None
        };
        self.store.push(StoredTile { alive: true, pos, parent, index: data.index, auto_id });
        let prev = layer_builder.staged.insert(key, Occupant { entity: h, id: Some(tile_id) });
        Ok(
            PlacedTile::Added {
                old_tile: match prev {
                    Some(o) => Some((o.entity, o.id)),
                    None => None,
                },
                new_tile: (h, tile_id),
            },
        )
    }

    /// Integrates a finished builder as a unit: the plane is
    /// registered and every staged cell enters the live index, staged
    /// cells superseding live ones. Nothing of the batch is visible
    /// before this call.
    pub fn commit_layer(&mut self, layer_builder: LayerBuilder)
        requires
            old(self).wf(),
            layer_builder.wf(),
        ensures
            final(self).wf(),
            final(self).grid_view() == old(self).grid_view().union_prefer_right(
                layer_builder.staged_view(),
            ),
            forall|mk: u16, lid: u16|
                #[trigger] final(self).layer_known(mk, lid) <==> (old(self).layer_known(mk, lid)
                    || (mk == layer_builder.map_key() && lid == layer_builder.layer_id())),
            final(self).store_view() == old(self).store_view(),
            final(self).events_view() == old(self).events_view(),
            final(self).registry() == old(self).registry(),
            final(self).autos_enabled() == old(self).autos_enabled(),
    {
        let parent = TileParent {
            map_key: layer_builder.map_key,
            layer_id: layer_builder.layer_id,
        };
        self.layers.push(parent);
        proof {
            lemma_push_contains(old(self).layers@, parent);
        }
        let n = layer_builder.staged.num_entries();
        for i in 0..n
            invariant
                n == layer_builder.staged.entries().len(),
                self.wf(),
                self.grid_view() == old(self).grid_view().union_prefer_right(
                    entries_map(layer_builder.staged.entries().take(i as int)),
                ),
                self.store@ == old(self).store@,
                self.events@ == old(self).events@,
                self.registry == old(self).registry,
                self.layers@ == old(self).layers@.push(parent),
                self.auto_tiles_enabled == old(self).auto_tiles_enabled,
        {
            let e = layer_builder.staged.entry_at(i);
            self.grid.insert(e.key, e.occ);
            proof {
                let s = layer_builder.staged.entries();
                assert(s.take(i + 1).drop_last() =~= s.take(i as int));
                assert(s.take(i + 1).last() == s[i as int]);
                assert(old(self).grid_view().union_prefer_right(
                    entries_map(s.take(i as int)),
                ).insert(e.key, e.occ) =~= old(self).grid_view().union_prefer_right(
                    entries_map(s.take(i + 1)),
                ));
            }
        }
        proof {
            let s = layer_builder.staged.entries();
            assert(s.take(n as int) =~= s);
            layer_builder.staged.lemma_view_entries();
        }
    }
}

} // verus!

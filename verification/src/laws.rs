//! Engine-wide properties, stated and proved over the operation
//! postconditions of the placement engine.
//!
//! Each lemma takes the states an operation relates (as constrained by
//! its `*_post` predicate) and derives what the decision table
//! promises, so the guarantees hold of any sequence of calls, not just
//! of the scenarios the tests replay.

use vstd::prelude::*;
use crate::tiles::{Entity, TileId, TilePos};
use crate::auto::TileParent;
use crate::grid::{CellKey, Occupant};
use crate::placement::{
    cell_of, clear_post, install_post, place_post, remove_post, replace_post, strip_event,
    toggle_matching_post, toggle_post, try_place_post, update_post, PlacedTile,
    TilePlacementError, TilePlacementResult, TilePlacer,
};
use crate::registry::TileRecord;

verus! {

/// Idempotent empty removal: `remove` on a cell with no occupant
/// succeeds and changes no observable state, for any (map, layer,
/// position).
pub proof fn lemma_remove_empty_is_noop(
    pre: TilePlacer,
    post: TilePlacer,
    pos: TilePos,
    map_key: u16,
    layer_id: u16,
    r: Result<(), TilePlacementError>,
)
    requires
        !pre.grid_view().contains_key(cell_of(pos, map_key, layer_id)),
        remove_post(pre, post, pos, map_key, layer_id, r),
    ensures
        r == Ok::<(), TilePlacementError>(()),
        post.grid_view() == pre.grid_view(),
        post.store_view() == pre.store_view(),
        post.events_view() == pre.events_view(),
        post.layers_view() == pre.layers_view(),
{
}

/// Unconditional overwrite: placing `b` right after placing `a` at
/// the same cell reports the superseded `a` and leaves `b` holding
/// the cell, for any two resolvable tiles.
pub proof fn lemma_place_overwrites(
    pre: TilePlacer,
    mid: TilePlacer,
    post: TilePlacer,
    a: TileId,
    b: TileId,
    pos: TilePos,
    map_key: u16,
    layer_id: u16,
    r1: TilePlacementResult,
    r2: TilePlacementResult,
)
    requires
        a != b,
        pre.registry().spec_resolve(a) is Ok,
        pre.registry().spec_resolve(b) is Ok,
        pre.layer_known(map_key, layer_id),
        place_post(pre, mid, a, pos, map_key, layer_id, r1),
        place_post(mid, post, b, pos, map_key, layer_id, r2),
    ensures
        r2 matches Ok(PlacedTile::Added { old_tile: Some((_, old_id)), new_tile: (_, new_id) })
            && old_id == Some(a) && new_id == b,
        post.grid_view().contains_key(cell_of(pos, map_key, layer_id)),
        post.grid_view()[cell_of(pos, map_key, layer_id)].id == Some(b),
{
    let key = cell_of(pos, map_key, layer_id);
    assert(mid.grid_view() == pre.grid_view().insert(key, mid.grid_view()[key]));
    assert(mid.grid_view()[key].id == Some(a));
}

/// Total exclusivity: `try_place` on any occupied cell reports
/// `TileAlreadyExists` — whether or not the occupant shares the new
/// tile's group — and mutates nothing.
pub proof fn lemma_try_place_rejects_occupied(
    pre: TilePlacer,
    post: TilePlacer,
    id: TileId,
    pos: TilePos,
    map_key: u16,
    layer_id: u16,
    r: TilePlacementResult,
)
    requires
        pre.registry().spec_resolve(id) is Ok,
        pre.grid_view().contains_key(cell_of(pos, map_key, layer_id)),
        try_place_post(pre, post, id, pos, map_key, layer_id, r),
    ensures
        r == Err::<PlacedTile, TilePlacementError>(
            TilePlacementError::TileAlreadyExists {
                new: id,
                existing: pre.grid_view()[cell_of(pos, map_key, layer_id)].id,
                pos,
            },
        ),
        post == pre,
{
}

/// Group-scoped exclusivity: `replace` rejects exactly when the
/// occupant is group-equal to the new tile; whenever the groups
/// differ it overwrites, occupied or not.
pub proof fn lemma_replace_group_scoped(
    pre: TilePlacer,
    post: TilePlacer,
    id: TileId,
    existing_id: TileId,
    pos: TilePos,
    map_key: u16,
    layer_id: u16,
    r: TilePlacementResult,
)
    requires
        pre.registry().spec_resolve(id) is Ok,
        pre.layer_known(map_key, layer_id),
        pre.grid_view().contains_key(cell_of(pos, map_key, layer_id)),
        pre.grid_view()[cell_of(pos, map_key, layer_id)].id == Some(existing_id),
        replace_post(pre, post, id, pos, map_key, layer_id, r),
    ensures
        existing_id.group_eq(id) ==> r == Err::<PlacedTile, TilePlacementError>(
            TilePlacementError::TileAlreadyExists { new: id, existing: Some(existing_id), pos },
        ) && post == pre,
        !existing_id.group_eq(id) ==> (r matches Ok(PlacedTile::Added { old_tile: Some(_), .. })
            && post.grid_view()[cell_of(pos, map_key, layer_id)].id == Some(id)),
{
}

/// Toggle symmetry: on an empty cell `toggle` places, on an occupied
/// cell it removes irrespective of group, so applying it twice with
/// the same arguments to an initially empty cell restores the
/// original occupancy.
pub proof fn lemma_toggle_twice_round_trip(
    pre: TilePlacer,
    mid: TilePlacer,
    post: TilePlacer,
    id: TileId,
    pos: TilePos,
    map_key: u16,
    layer_id: u16,
    r1: TilePlacementResult,
    r2: TilePlacementResult,
)
    requires
        pre.registry().spec_resolve(id) is Ok,
        pre.layer_known(map_key, layer_id),
        !pre.grid_view().contains_key(cell_of(pos, map_key, layer_id)),
        toggle_post(pre, mid, id, pos, map_key, layer_id, r1),
        toggle_post(mid, post, id, pos, map_key, layer_id, r2),
    ensures
        r1 matches Ok(PlacedTile::Added { old_tile: None, .. }),
        r2 matches Ok(PlacedTile::Removed { old_tile: Some(_) }),
        post.grid_view() == pre.grid_view(),
{
    let key = cell_of(pos, map_key, layer_id);
    assert(mid.grid_view() == pre.grid_view().insert(key, mid.grid_view()[key]));
    assert(post.grid_view() =~= pre.grid_view());
}

/// Toggle-matching selectivity: `toggle_matching` removes exactly
/// when the occupant is group-equal to the given tile; on any other
/// occupant it reports `TileAlreadyExists` and performs no mutation.
pub proof fn lemma_toggle_matching_selective(
    pre: TilePlacer,
    post: TilePlacer,
    id: TileId,
    pos: TilePos,
    map_key: u16,
    layer_id: u16,
    r: TilePlacementResult,
)
    requires
        pre.registry().spec_resolve(id) is Ok,
        pre.grid_view().contains_key(cell_of(pos, map_key, layer_id)),
        toggle_matching_post(pre, post, id, pos, map_key, layer_id, r),
    ensures
        ({
            let occ = pre.grid_view()[cell_of(pos, map_key, layer_id)];
            let matches_group = occ.id matches Some(eid) && eid.group_eq(id);
            (matches_group ==> (r matches Ok(PlacedTile::Removed { old_tile: Some(_) })
                && !post.grid_view().contains_key(cell_of(pos, map_key, layer_id))))
                && (!matches_group ==> r == Err::<PlacedTile, TilePlacementError>(
                TilePlacementError::TileAlreadyExists { new: id, existing: occ.id, pos },
            ) && post == pre)
        }),
{
}

/// Cascade correctness: clearing an occupied cell — by `remove` or by
/// the removal branches of `toggle` / `toggle_matching` — queues
/// exactly one cascade notification, bearing the occupant's handle
/// and recorded position, precisely when the occupant carried an
/// auto-tile identity; otherwise the queue is untouched.
pub proof fn lemma_removal_cascade(pre: TilePlacer, post: TilePlacer, key: CellKey)
    requires
        pre.grid_view().contains_key(key),
        clear_post(pre, post, key),
    ensures
        !post.grid_view().contains_key(key),
        ({
            let e = pre.grid_view()[key].entity;
            (strip_event(pre, e) matches Some(ev) ==> post.events_view().len()
                == pre.events_view().len() + 1 && post.events_view().last() == ev && ev.entity == e
                && ev.pos == pre.store_view()[e.id as int].pos && post.events_view().take(
                pre.events_view().len() as int,
            ) == pre.events_view()) && (strip_event(pre, e) is None ==> post.events_view()
                == pre.events_view())
        }),
{
    let e = pre.grid_view()[key].entity;
    if strip_event(pre, e) is Some {
        assert(post.events_view().take(pre.events_view().len() as int) =~= pre.events_view());
    }
}

/// Placing a tile whose metadata marks it as an auto-tile (with the
/// capability enabled) and then removing it queues exactly one
/// cascade notification, bearing the placed handle and the cell's
/// position; placing a tile whose metadata does not and removing it
/// queues none.
pub proof fn lemma_placed_auto_tile_cascades_on_removal(
    pre: TilePlacer,
    mid: TilePlacer,
    post: TilePlacer,
    id: TileId,
    rec: TileRecord,
    pos: TilePos,
    map_key: u16,
    layer_id: u16,
    r1: TilePlacementResult,
    r2: Result<(), TilePlacementError>,
)
    requires
        pre.registry().spec_resolve(id) == Ok::<TileRecord, TilePlacementError>(rec),
        pre.layer_known(map_key, layer_id),
        pre.store_view().len() <= u64::MAX as nat,
        place_post(pre, mid, id, pos, map_key, layer_id, r1),
        remove_post(mid, post, pos, map_key, layer_id, r2),
    ensures
        pre.autos_enabled() && rec.is_auto_tile ==> post.events_view().len()
            == mid.events_view().len() + 1 && post.events_view().last().pos == pos
            && (r1 matches Ok(PlacedTile::Added { new_tile, .. }) && post.events_view().last().entity
            == new_tile.0),
        !(pre.autos_enabled() && rec.is_auto_tile) ==> post.events_view() == mid.events_view(),
{
    let key = cell_of(pos, map_key, layer_id);
    assert(mid.grid_view() == pre.grid_view().insert(key, mid.grid_view()[key]));
    let h = mid.grid_view()[key].entity;
    assert(mid.store_view()[h.id as int].auto_id is Some <==> (pre.autos_enabled()
        && rec.is_auto_tile));
}

/// Engine coherence: every occupant in the index is backed by a live
/// store record for its own cell, and no two cells share a handle. It
/// holds of a fresh engine and the lemmas below show the live-index
/// operations keep it, so the stale-handle branches that the
/// operation contracts tolerate are never reached by states the
/// engine itself produced.
pub open spec fn coherent(p: TilePlacer) -> bool {
    (forall|k: CellKey| #[trigger] p.grid_view().contains_key(k) ==> {
        let e = p.grid_view()[k].entity;
        (e.id as int) < (p.store_view().len() as int) && p.store_view()[e.id as int].alive
            && p.store_view()[e.id as int].pos == k.pos && p.store_view()[e.id as int].parent == (
        TileParent { map_key: k.map_key, layer_id: k.layer_id })
    }) && (forall|k1: CellKey, k2: CellKey|
        #![trigger p.grid_view()[k1], p.grid_view()[k2]]
        p.grid_view().contains_key(k1) && p.grid_view().contains_key(k2) && k1 != k2
            ==> p.grid_view()[k1].entity != p.grid_view()[k2].entity)
}

/// A fresh engine is coherent: nothing occupies any cell.
pub proof fn lemma_new_engine_coherent(p: TilePlacer)
    requires
        p.grid_view() == Map::<CellKey, Occupant>::empty(),
    ensures
        coherent(p),
{
}

/// Installing a tile keeps the engine coherent: the written cell is
/// backed by the record just written, every other cell's handle is
/// untouched, and a fresh handle collides with no existing one.
pub proof fn lemma_install_preserves_coherence(
    pre: TilePlacer,
    post: TilePlacer,
    id: TileId,
    rec: TileRecord,
    key: CellKey,
    r: TilePlacementResult,
)
    requires
        coherent(pre),
        pre.store_view().len() <= u64::MAX as nat,
        install_post(pre, post, id, rec, key, r),
    ensures
        coherent(post),
{
    if pre.layer_known(key.map_key, key.layer_id) {
        let h = post.grid_view()[key].entity;
        assert forall|k: CellKey| #[trigger] post.grid_view().contains_key(k) implies {
            let e = post.grid_view()[k].entity;
            (e.id as int) < (post.store_view().len() as int) && post.store_view()[e.id as int].alive
                && post.store_view()[e.id as int].pos == k.pos && post.store_view()[e.id as int].parent
                == (TileParent { map_key: k.map_key, layer_id: k.layer_id })
        } by {
            if k != key {
                assert(pre.grid_view().contains_key(k));
                assert(pre.grid_view()[k].entity != h || !pre.grid_view().contains_key(key));
            }
        }
        assert forall|k1: CellKey, k2: CellKey|
            #![trigger post.grid_view()[k1], post.grid_view()[k2]]
            post.grid_view().contains_key(k1) && post.grid_view().contains_key(k2) && k1 != k2
                implies post.grid_view()[k1].entity != post.grid_view()[k2].entity by {
            if k1 != key && k2 != key {
                assert(pre.grid_view().contains_key(k1) && pre.grid_view().contains_key(k2));
            }
        }
    }
}

/// Clearing a cell keeps the engine coherent: only the despawned
/// handle's record changes, and it backs no other cell.
pub proof fn lemma_clear_preserves_coherence(pre: TilePlacer, post: TilePlacer, key: CellKey)
    requires
        coherent(pre),
        clear_post(pre, post, key),
    ensures
        coherent(post),
{
    match pre.grid_view().get(key) {
        None => {
        },
        Some(occ) => {
            assert forall|k: CellKey| #[trigger] post.grid_view().contains_key(k) implies {
                let e = post.grid_view()[k].entity;
                (e.id as int) < (post.store_view().len() as int) && post.store_view()[e.id as int].alive
                    && post.store_view()[e.id as int].pos == k.pos && post.store_view()[e.id as int].parent
                    == (TileParent { map_key: k.map_key, layer_id: k.layer_id })
            } by {
                assert(pre.grid_view().contains_key(k) && k != key);
                assert(pre.grid_view()[k].entity != occ.entity);
            }
        },
    }
}

/// Reconciling a handle's metadata keeps the engine coherent: the
/// occupancy relation is untouched and no record changes its
/// liveness, position or plane.
pub proof fn lemma_update_preserves_coherence(
    pre: TilePlacer,
    post: TilePlacer,
    id: TileId,
    entity: Entity,
    r: Result<(), TilePlacementError>,
)
    requires
        coherent(pre),
        update_post(pre, post, id, entity, r),
    ensures
        coherent(post),
{
}

} // verus!

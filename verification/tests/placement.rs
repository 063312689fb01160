use tileset_map::auto::AutoTileId;
use tileset_map::placement::{
    LayerBuilder, PlacedTile, StorageError, TilePlacementError, TilePlacer,
};
use tileset_map::registry::TileRegistry;
use tileset_map::tiles::{TileId, TilePos};

fn wall() -> TileId {
    TileId { tileset_id: 0, group_id: 1, variant: 0 }
}

fn wall_corner() -> TileId {
    TileId { tileset_id: 0, group_id: 1, variant: 1 }
}

fn wall_variant2() -> TileId {
    TileId { tileset_id: 0, group_id: 1, variant: 2 }
}

fn floor_tile() -> TileId {
    TileId { tileset_id: 0, group_id: 2, variant: 0 }
}

fn grass_auto() -> TileId {
    TileId { tileset_id: 0, group_id: 3, variant: 0 }
}

fn setup() -> TilePlacer {
    let mut reg = TileRegistry::new();
    reg.add_tileset(0);
    assert!(reg.add_tile(wall(), 10, false));
    assert!(reg.add_tile(wall_corner(), 11, false));
    assert!(reg.add_tile(wall_variant2(), 12, false));
    assert!(reg.add_tile(floor_tile(), 20, false));
    assert!(reg.add_tile(grass_auto(), 30, true));
    let mut placer = TilePlacer::new(reg, true);
    placer.add_layer(0u16, 0);
    placer
}

fn placed_handle(r: PlacedTile) -> tileset_map::tiles::Entity {
    match r {
        PlacedTile::Added { new_tile, .. } => new_tile.0,
        PlacedTile::Removed { .. } => panic!("expected Added"),
    }
}

#[test]
fn place_on_empty_cell_adds() {
    let mut p = setup();
    let pos = TilePos { x: 0, y: 0 };
    let r = p.place(wall(), pos, 0u16, 0).unwrap();
    match r {
        PlacedTile::Added { old_tile, new_tile } => {
            assert_eq!(old_tile, None);
            assert_eq!(new_tile.1, wall());
        },
        PlacedTile::Removed { .. } => panic!("expected Added"),
    }
    assert_eq!(p.get_existing(pos, 0u16, 0).unwrap().id, Some(wall()));
}

#[test]
fn try_place_on_occupied_cell_rejects() {
    let mut p = setup();
    let pos = TilePos { x: 0, y: 0 };
    p.place(wall(), pos, 0u16, 0).unwrap();
    let r = p.try_place(floor_tile(), pos, 0u16, 0);
    assert_eq!(
        r,
        Err(TilePlacementError::TileAlreadyExists {
            new: floor_tile(),
            existing: Some(wall()),
            pos,
        })
    );
    assert_eq!(p.get_existing(pos, 0u16, 0).unwrap().id, Some(wall()));
}

#[test]
fn try_place_rejects_even_across_groups() {
    let mut p = setup();
    let pos = TilePos { x: 2, y: 2 };
    p.place(wall(), pos, 0u16, 0).unwrap();
    let different_group = p.try_place(floor_tile(), pos, 0u16, 0);
    assert!(matches!(
        different_group,
        Err(TilePlacementError::TileAlreadyExists { .. })
    ));
    let same_group = p.try_place(wall_corner(), pos, 0u16, 0);
    assert!(matches!(
        same_group,
        Err(TilePlacementError::TileAlreadyExists { .. })
    ));
}

#[test]
fn try_place_on_empty_cell_adds() {
    let mut p = setup();
    let pos = TilePos { x: 1, y: 1 };
    let r = p.try_place(wall(), pos, 0u16, 0).unwrap();
    match r {
        PlacedTile::Added { old_tile, new_tile } => {
            assert_eq!(old_tile, None);
            assert_eq!(new_tile.1, wall());
        },
        PlacedTile::Removed { .. } => panic!("expected Added"),
    }
}

#[test]
fn replace_rejects_group_equal_occupant() {
    let mut p = setup();
    let pos = TilePos { x: 0, y: 0 };
    p.place(wall(), pos, 0u16, 0).unwrap();
    let r = p.replace(wall_corner(), pos, 0u16, 0);
    assert_eq!(
        r,
        Err(TilePlacementError::TileAlreadyExists {
            new: wall_corner(),
            existing: Some(wall()),
            pos,
        })
    );
    assert_eq!(p.get_existing(pos, 0u16, 0).unwrap().id, Some(wall()));
}

#[test]
fn replace_overwrites_different_group() {
    let mut p = setup();
    let pos = TilePos { x: 0, y: 0 };
    let e1 = placed_handle(p.place(wall(), pos, 0u16, 0).unwrap());
    let r = p.replace(floor_tile(), pos, 0u16, 0).unwrap();
    match r {
        PlacedTile::Added { old_tile, new_tile } => {
            assert_eq!(old_tile, Some((e1, Some(wall()))));
            assert_eq!(new_tile.1, floor_tile());
        },
        PlacedTile::Removed { .. } => panic!("expected Added"),
    }
    assert_eq!(p.get_existing(pos, 0u16, 0).unwrap().id, Some(floor_tile()));
}

#[test]
fn replace_installs_on_empty_cell() {
    let mut p = setup();
    let pos = TilePos { x: 5, y: 5 };
    let r = p.replace(wall(), pos, 0u16, 0).unwrap();
    assert!(matches!(r, PlacedTile::Added { old_tile: None, .. }));
}

#[test]
fn toggle_matching_removes_group_equal_occupant() {
    let mut p = setup();
    let pos = TilePos { x: 0, y: 0 };
    let e1 = placed_handle(p.place(wall(), pos, 0u16, 0).unwrap());
    let r = p.toggle_matching(wall_variant2(), pos, 0u16, 0).unwrap();
    assert_eq!(r, PlacedTile::Removed { old_tile: Some((e1, Some(wall()))) });
    assert!(p.get_existing(pos, 0u16, 0).is_none());
}

#[test]
fn toggle_matching_rejects_other_group() {
    let mut p = setup();
    let pos = TilePos { x: 0, y: 0 };
    p.place(wall(), pos, 0u16, 0).unwrap();
    let r = p.toggle_matching(floor_tile(), pos, 0u16, 0);
    assert_eq!(
        r,
        Err(TilePlacementError::TileAlreadyExists {
            new: floor_tile(),
            existing: Some(wall()),
            pos,
        })
    );
    assert_eq!(p.get_existing(pos, 0u16, 0).unwrap().id, Some(wall()));
}

#[test]
fn toggle_matching_installs_on_empty_cell() {
    let mut p = setup();
    let pos = TilePos { x: 6, y: 6 };
    let r = p.toggle_matching(wall(), pos, 0u16, 0).unwrap();
    assert!(matches!(r, PlacedTile::Added { old_tile: None, .. }));
    assert_eq!(p.get_existing(pos, 0u16, 0).unwrap().id, Some(wall()));
}

#[test]
fn toggle_places_then_removes() {
    let mut p = setup();
    let pos = TilePos { x: 4, y: 4 };
    let r1 = p.toggle(wall(), pos, 0u16, 0).unwrap();
    assert!(matches!(r1, PlacedTile::Added { old_tile: None, .. }));
    let r2 = p.toggle(wall(), pos, 0u16, 0).unwrap();
    assert!(matches!(r2, PlacedTile::Removed { old_tile: Some(_) }));
    assert!(p.get_existing(pos, 0u16, 0).is_none());
}

#[test]
fn toggle_removes_any_group() {
    let mut p = setup();
    let pos = TilePos { x: 4, y: 4 };
    let e1 = placed_handle(p.place(wall(), pos, 0u16, 0).unwrap());
    let r = p.toggle(floor_tile(), pos, 0u16, 0).unwrap();
    assert_eq!(r, PlacedTile::Removed { old_tile: Some((e1, Some(wall()))) });
    assert!(p.get_existing(pos, 0u16, 0).is_none());
}

#[test]
fn remove_on_empty_cell_is_ok() {
    let mut p = setup();
    assert_eq!(p.remove(TilePos { x: 9, y: 9 }, 0u16, 0), Ok(()));
    assert!(p.get_existing(TilePos { x: 9, y: 9 }, 0u16, 0).is_none());
    assert!(p.pending_cascades().is_empty());
}

#[test]
fn remove_on_unregistered_layer_is_ok() {
    let mut p = setup();
    assert_eq!(p.remove(TilePos { x: 9, y: 9 }, 7u16, 3), Ok(()));
}

#[test]
fn remove_clears_occupied_cell() {
    let mut p = setup();
    let pos = TilePos { x: 1, y: 2 };
    p.place(wall(), pos, 0u16, 0).unwrap();
    assert_eq!(p.remove(pos, 0u16, 0), Ok(()));
    assert!(p.get_existing(pos, 0u16, 0).is_none());
}

#[test]
fn remove_auto_tile_emits_one_cascade() {
    let mut p = setup();
    let pos = TilePos { x: 3, y: 4 };
    let e = placed_handle(p.place(grass_auto(), pos, 0u16, 0).unwrap());
    assert!(p.pending_cascades().is_empty());
    p.remove(pos, 0u16, 0).unwrap();
    let evs = p.drain_cascades();
    assert_eq!(evs.len(), 1);
    assert_eq!(evs[0].entity, e);
    assert_eq!(evs[0].pos, pos);
    assert_eq!(evs[0].parent.map_key, 0);
    assert_eq!(evs[0].parent.layer_id, 0);
    assert_eq!(evs[0].auto_id, AutoTileId { group_id: 3, tileset_id: 0 });
    assert!(p.get_existing(pos, 0u16, 0).is_none());
    assert!(p.pending_cascades().is_empty());
}

#[test]
fn remove_plain_tile_emits_no_cascade() {
    let mut p = setup();
    let pos = TilePos { x: 3, y: 4 };
    p.place(wall(), pos, 0u16, 0).unwrap();
    p.remove(pos, 0u16, 0).unwrap();
    assert!(p.pending_cascades().is_empty());
}

#[test]
fn toggle_removal_of_auto_tile_emits_cascade() {
    let mut p = setup();
    let pos = TilePos { x: 8, y: 8 };
    let e = placed_handle(p.place(grass_auto(), pos, 0u16, 0).unwrap());
    p.toggle(wall(), pos, 0u16, 0).unwrap();
    let evs = p.drain_cascades();
    assert_eq!(evs.len(), 1);
    assert_eq!(evs[0].entity, e);
    assert_eq!(evs[0].pos, pos);
}

#[test]
fn overwriting_auto_tile_with_plain_tile_strips_and_cascades() {
    let mut p = setup();
    let pos = TilePos { x: 2, y: 7 };
    let e = placed_handle(p.place(grass_auto(), pos, 0u16, 0).unwrap());
    let r = p.place(wall(), pos, 0u16, 0).unwrap();
    assert!(matches!(r, PlacedTile::Added { old_tile: Some(_), .. }));
    let evs = p.drain_cascades();
    assert_eq!(evs.len(), 1);
    assert_eq!(evs[0].entity, e);
}

#[test]
fn overwriting_auto_tile_with_auto_tile_refreshes_quietly() {
    let mut p = setup();
    let pos = TilePos { x: 2, y: 7 };
    p.place(grass_auto(), pos, 0u16, 0).unwrap();
    p.place(grass_auto(), pos, 0u16, 0).unwrap();
    assert!(p.pending_cascades().is_empty());
}

#[test]
fn cascades_skipped_when_capability_disabled() {
    let mut reg = TileRegistry::new();
    reg.add_tileset(0);
    assert!(reg.add_tile(grass_auto(), 30, true));
    let mut p = TilePlacer::new(reg, false);
    p.add_layer(0u16, 0);
    let pos = TilePos { x: 0, y: 0 };
    p.place(grass_auto(), pos, 0u16, 0).unwrap();
    p.remove(pos, 0u16, 0).unwrap();
    assert!(p.pending_cascades().is_empty());
}

#[test]
fn unknown_tileset_fails_before_any_mutation() {
    let mut p = setup();
    let pos = TilePos { x: 0, y: 0 };
    let bad = TileId { tileset_id: 9, group_id: 1, variant: 0 };
    assert_eq!(
        p.place(bad, pos, 0u16, 0),
        Err(TilePlacementError::InvalidTileset(9))
    );
    assert!(p.get_existing(pos, 0u16, 0).is_none());
}

#[test]
fn unknown_tile_fails_before_any_mutation() {
    let mut p = setup();
    let pos = TilePos { x: 0, y: 0 };
    let bad = TileId { tileset_id: 0, group_id: 99, variant: 0 };
    assert_eq!(p.place(bad, pos, 0u16, 0), Err(TilePlacementError::InvalidTile(bad)));
    assert!(p.get_existing(pos, 0u16, 0).is_none());
}

#[test]
fn toggle_resolves_before_deciding() {
    let mut p = setup();
    let pos = TilePos { x: 0, y: 0 };
    p.place(wall(), pos, 0u16, 0).unwrap();
    let bad = TileId { tileset_id: 0, group_id: 99, variant: 0 };
    assert_eq!(p.toggle(bad, pos, 0u16, 0), Err(TilePlacementError::InvalidTile(bad)));
    assert_eq!(p.get_existing(pos, 0u16, 0).unwrap().id, Some(wall()));
}

#[test]
fn placing_on_unregistered_layer_reports_map_error() {
    let mut p = setup();
    let pos = TilePos { x: 0, y: 0 };
    assert_eq!(
        p.place(wall(), pos, 5u16, 0),
        Err(TilePlacementError::MapError(StorageError::MissingLayer {
            map_key: 5,
            layer_id: 0,
        }))
    );
    assert!(p.get_existing(pos, 5u16, 0).is_none());
}

#[test]
fn update_strips_identity_and_cascades() {
    let mut p = setup();
    let pos = TilePos { x: 1, y: 1 };
    let e = placed_handle(p.place(grass_auto(), pos, 0u16, 0).unwrap());
    assert_eq!(p.update(wall(), e), Ok(()));
    let evs = p.drain_cascades();
    assert_eq!(evs.len(), 1);
    assert_eq!(evs[0].entity, e);
}

#[test]
fn update_attaches_identity_quietly() {
    let mut p = setup();
    let pos = TilePos { x: 1, y: 1 };
    let e = placed_handle(p.place(wall(), pos, 0u16, 0).unwrap());
    assert_eq!(p.update(grass_auto(), e), Ok(()));
    assert!(p.pending_cascades().is_empty());
}

#[test]
fn update_with_unresolvable_tile_errors() {
    let mut p = setup();
    let pos = TilePos { x: 1, y: 1 };
    let e = placed_handle(p.place(wall(), pos, 0u16, 0).unwrap());
    let bad = TileId { tileset_id: 9, group_id: 1, variant: 0 };
    assert_eq!(p.update(bad, e), Err(TilePlacementError::InvalidTileset(9)));
}

#[test]
fn update_tolerates_unknown_handle() {
    let mut p = setup();
    let ghost_handle = tileset_map::tiles::Entity { id: 1000 };
    assert_eq!(p.update(wall(), ghost_handle), Ok(()));
    assert!(p.pending_cascades().is_empty());
}

#[test]
fn layer_builder_stages_without_touching_live_index() {
    let mut p = setup();
    let mut b = LayerBuilder::new(1u16, 0);
    let pos = TilePos { x: 0, y: 0 };
    let r1 = p.add_to_layer(wall(), pos, &mut b).unwrap();
    assert!(matches!(r1, PlacedTile::Added { old_tile: None, .. }));
    assert!(p.get_existing(pos, 1u16, 0).is_none());
    assert!(!p.layer_exists(1, 0));
}

#[test]
fn add_to_layer_supersedes_earlier_staging() {
    let mut p = setup();
    let mut b = LayerBuilder::new(1u16, 0);
    let pos = TilePos { x: 0, y: 0 };
    let e1 = placed_handle(p.add_to_layer(wall(), pos, &mut b).unwrap());
    let r2 = p.add_to_layer(floor_tile(), pos, &mut b).unwrap();
    match r2 {
        PlacedTile::Added { old_tile, new_tile } => {
            assert_eq!(old_tile, Some((e1, Some(wall()))));
            assert_eq!(new_tile.1, floor_tile());
        },
        PlacedTile::Removed { .. } => panic!("expected Added"),
    }
}

#[test]
fn add_to_layer_resolves_first() {
    let mut p = setup();
    let mut b = LayerBuilder::new(1u16, 0);
    let bad = TileId { tileset_id: 9, group_id: 1, variant: 0 };
    assert_eq!(
        p.add_to_layer(bad, TilePos { x: 0, y: 0 }, &mut b),
        Err(TilePlacementError::InvalidTileset(9))
    );
}

#[test]
fn commit_layer_integrates_the_batch_as_a_unit() {
    let mut p = setup();
    let mut b = LayerBuilder::new(1u16, 0);
    let a = TilePos { x: 0, y: 0 };
    let c = TilePos { x: 1, y: 0 };
    p.add_to_layer(wall(), a, &mut b).unwrap();
    p.add_to_layer(floor_tile(), a, &mut b).unwrap();
    p.add_to_layer(floor_tile(), c, &mut b).unwrap();
    p.commit_layer(b);
    assert!(p.layer_exists(1, 0));
    assert_eq!(p.get_existing(a, 1u16, 0).unwrap().id, Some(floor_tile()));
    assert_eq!(p.get_existing(c, 1u16, 0).unwrap().id, Some(floor_tile()));
    assert!(p.get_existing(TilePos { x: 2, y: 0 }, 1u16, 0).is_none());
}

#[test]
fn committed_layer_accepts_direct_placement() {
    let mut p = setup();
    let b = LayerBuilder::new(2u16, 1);
    p.commit_layer(b);
    let pos = TilePos { x: 0, y: 0 };
    let r = p.place(wall(), pos, 2u16, 1).unwrap();
    assert!(matches!(r, PlacedTile::Added { old_tile: None, .. }));
}

#[test]
fn layers_are_independent() {
    let mut p = setup();
    p.add_layer(0u16, 1);
    let pos = TilePos { x: 0, y: 0 };
    p.place(wall(), pos, 0u16, 0).unwrap();
    p.place(floor_tile(), pos, 0u16, 1).unwrap();
    assert_eq!(p.get_existing(pos, 0u16, 0).unwrap().id, Some(wall()));
    assert_eq!(p.get_existing(pos, 0u16, 1).unwrap().id, Some(floor_tile()));
    p.remove(pos, 0u16, 0).unwrap();
    assert!(p.get_existing(pos, 0u16, 0).is_none());
    assert_eq!(p.get_existing(pos, 0u16, 1).unwrap().id, Some(floor_tile()));
}

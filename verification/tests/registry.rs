use tileset_map::placement::TilePlacementError;
use tileset_map::registry::TileRegistry;
use tileset_map::tiles::{TileId, TilePos};

fn grass() -> TileId {
    TileId { tileset_id: 1, group_id: 4, variant: 0 }
}

fn grass_variant() -> TileId {
    TileId { tileset_id: 1, group_id: 4, variant: 1 }
}

fn stone() -> TileId {
    TileId { tileset_id: 1, group_id: 5, variant: 0 }
}

fn setup() -> TileRegistry {
    let mut reg = TileRegistry::new();
    reg.add_tileset(1);
    assert!(reg.add_tile(grass(), 7, true));
    assert!(reg.add_tile(grass_variant(), 8, true));
    assert!(reg.add_tile(stone(), 9, false));
    reg
}

#[test]
fn resolve_tileset_finds_known_tileset() {
    let reg = setup();
    assert_eq!(reg.resolve_tileset(&grass()), Ok(1));
}

#[test]
fn resolve_tileset_rejects_unknown_tileset() {
    let reg = setup();
    let foreign = TileId { tileset_id: 3, group_id: 4, variant: 0 };
    assert_eq!(
        reg.resolve_tileset(&foreign),
        Err(TilePlacementError::InvalidTileset(3))
    );
}

#[test]
fn resolve_index_returns_the_registered_index() {
    let reg = setup();
    assert_eq!(reg.resolve_index(&grass()), Ok(7));
    assert_eq!(reg.resolve_index(&grass_variant()), Ok(8));
    assert_eq!(reg.resolve_index(&stone()), Ok(9));
}

#[test]
fn resolve_metadata_exposes_auto_flag_and_group() {
    let reg = setup();
    let rec = reg.resolve_metadata(&grass()).unwrap();
    assert!(rec.is_auto_tile);
    assert_eq!(rec.id.group_id, 4);
    let rec = reg.resolve_metadata(&stone()).unwrap();
    assert!(!rec.is_auto_tile);
}

#[test]
fn resolve_metadata_rejects_missing_tile_in_known_tileset() {
    let reg = setup();
    let missing = TileId { tileset_id: 1, group_id: 6, variant: 0 };
    assert_eq!(
        reg.resolve_metadata(&missing),
        Err(TilePlacementError::InvalidTile(missing))
    );
}

#[test]
fn duplicate_registration_is_refused() {
    let mut reg = setup();
    assert!(!reg.add_tile(grass(), 99, false));
    assert_eq!(reg.resolve_index(&grass()), Ok(7));
}

#[test]
fn lookup_distinguishes_variants() {
    let reg = setup();
    assert_eq!(reg.lookup(&grass()).unwrap().index, 7);
    assert_eq!(reg.lookup(&grass_variant()).unwrap().index, 8);
    let missing = TileId { tileset_id: 1, group_id: 4, variant: 2 };
    assert!(reg.lookup(&missing).is_none());
}

#[test]
fn has_tileset_reports_registration() {
    let reg = setup();
    assert!(reg.has_tileset(1));
    assert!(!reg.has_tileset(0));
}

#[test]
fn group_equality_ignores_variant() {
    assert!(grass().eq_tile_group(&grass_variant()));
    assert!(!grass().eq_tile_group(&stone()));
    let other_tileset = TileId { tileset_id: 2, group_id: 4, variant: 0 };
    assert!(!grass().eq_tile_group(&other_tileset));
}

#[test]
fn tile_pos_constructor_sets_coordinates() {
    let pos = TilePos::new(3, 4);
    assert_eq!(pos.x, 3);
    assert_eq!(pos.y, 4);
}

use world_generator::{build_tileset, tileset_fits, TileSource, TilesetDefinition};

fn definition(identifier: &str, c_wid: u32, c_hei: u32, size: u32) -> TilesetDefinition {
    TilesetDefinition {
        uid: 1,
        identifier: identifier.to_string(),
        c_wid,
        c_hei,
        tile_grid_size: size,
        rel_path: "art/floor/floor_brick.png".to_string(),
        saved_selections: vec![],
    }
}

#[test]
fn ordinary_tileset_indexing() {
    let def = definition("Floor", 10, 2, 16);
    assert!(tileset_fits(&def));
    let t = build_tileset(&def, "id".to_string());
    assert_eq!(t.tiles.len(), 20);
    assert_eq!(t.uuid, "id");
    assert_eq!(t.src, "art/floor/floor_brick.png");
    assert!(!t.tilt);
    let at = |index: u8| *t.tiles.iter().find(|s| s.index == index).unwrap();
    assert_eq!(at(1), TileSource { index: 1, x: 0, y: 0, width: 16, height: 16 });
    assert_eq!(at(2), TileSource { index: 2, x: 16, y: 0, width: 16, height: 16 });
    assert_eq!(at(3), TileSource { index: 3, x: 32, y: 0, width: 16, height: 16 });
    assert_eq!(at(10), TileSource { index: 10, x: 144, y: 0, width: 16, height: 16 });
    assert_eq!(at(11), TileSource { index: 11, x: 0, y: 16, width: 16, height: 16 });
    assert_eq!(at(12), TileSource { index: 12, x: 16, y: 16, width: 16, height: 16 });
    assert_eq!(at(20), TileSource { index: 20, x: 144, y: 16, width: 16, height: 16 });
    assert!(t.tiles.iter().all(|s| s.index != 0));
}

#[test]
fn tall_tileset_halving() {
    let def = definition("Wall", 3, 4, 16);
    let t = build_tileset(&def, "w".to_string());
    assert!(t.tilt);
    assert_eq!(t.tiles.len(), 6);
    assert!(t.tiles.iter().all(|s| s.width == 16 && s.height == 32));
    assert_eq!(t.tiles[0], TileSource { index: 1, x: 0, y: 0, width: 16, height: 32 });
    assert_eq!(t.tiles[3], TileSource { index: 4, x: 0, y: 32, width: 16, height: 32 });
    assert_eq!(t.tiles[5], TileSource { index: 6, x: 32, y: 32, width: 16, height: 32 });
}

#[test]
fn tall_tileset_with_odd_rows_keeps_last_row() {
    let def = definition("Wall", 2, 3, 8);
    let t = build_tileset(&def, "w".to_string());
    assert_eq!(t.tiles.len(), 4);
    assert_eq!(t.tiles[3], TileSource { index: 4, x: 8, y: 16, width: 8, height: 16 });
}

#[test]
fn empty_tilesets() {
    assert!(build_tileset(&definition("Floor", 0, 5, 16), "a".to_string()).tiles.is_empty());
    assert!(build_tileset(&definition("Floor", 5, 0, 16), "b".to_string()).tiles.is_empty());
}

#[test]
fn tileset_size_limits() {
    assert!(tileset_fits(&definition("Floor", 15, 17, 16)));
    assert!(!tileset_fits(&definition("Floor", 16, 16, 16)));
    assert!(tileset_fits(&definition("Wall", 15, 33, 16)));
    assert!(!tileset_fits(&definition("Wall", 16, 31, 16)));
    assert!(!tileset_fits(&definition("Floor", 2, 2, u32::MAX)));
}

use std::collections::HashMap;
use world_generator::{LevelModel, RoomModel, TileGroup, TileType};

fn group(cells: &[(u32, u32, u8)]) -> TileGroup {
    let mut g = TileGroup::new("set".to_string());
    for &(x, y, i) in cells {
        g.insert(x, y, i);
    }
    g
}

fn room(world_pos: [i32; 2], size: [u32; 2]) -> RoomModel {
    RoomModel {
        display_name: String::new(),
        world_pos,
        size,
        walls: vec![],
        floors: vec![],
        roofs: vec![],
        lights: vec![],
    }
}

fn scenario() -> LevelModel {
    let mut r = room([0, 0], [4, 4]);
    r.floors.push(group(&[(1, 1, 5)]));
    r.roofs.push(group(&[(1, 1, 9)]));
    LevelModel { spawn_point: [0, 0], rooms: vec![r], tilesets: vec![] }
}

#[test]
fn spatial_query_scenario() {
    let level = scenario();
    assert!(level.contains_floor([1, 1]));
    assert_eq!(level.pos_tile([1, 1]), Some(TileType::Roof));
    assert_eq!(level.pos_tile([2, 2]), None);
    assert!(!level.contains_floor([5, 5]));
}

#[test]
fn wall_before_floor() {
    let mut r = room([-3, 2], [5, 5]);
    r.floors.push(group(&[(0, 0, 1), (4, 4, 1)]));
    r.walls.push(group(&[(0, 0, 2)]));
    let level = LevelModel { spawn_point: [0, 0], rooms: vec![r], tilesets: vec![] };
    assert_eq!(level.pos_tile([-3, 2]), Some(TileType::Wall));
    assert_eq!(level.pos_tile([1, 6]), Some(TileType::Floor));
    assert!(level.contains_floor([-3, 2]));
    assert!(level.contains_floor([1, 6]));
    assert!(!level.contains_floor([0, 3]));
}

#[test]
fn bounds_are_half_open() {
    let mut r = room([0, 0], [4, 4]);
    // a cell recorded on the far edge lies outside the room and is never seen
    r.floors.push(group(&[(4, 0, 1), (0, 4, 1), (3, 3, 1)]));
    let level = LevelModel { spawn_point: [0, 0], rooms: vec![r], tilesets: vec![] };
    assert!(!level.contains_floor([4, 0]));
    assert!(!level.contains_floor([0, 4]));
    assert!(level.contains_floor([3, 3]));
    assert_eq!(level.pos_tile([4, 0]), None);
}

#[test]
fn later_rooms_are_searched() {
    let a = room([0, 0], [2, 2]);
    let mut b = room([10, 10], [2, 2]);
    b.roofs.push(group(&[(1, 0, 3)]));
    let level = LevelModel { spawn_point: [0, 0], rooms: vec![a, b], tilesets: vec![] };
    assert_eq!(level.pos_tile([11, 10]), Some(TileType::Roof));
    assert_eq!(level.pos_tile([1, 0]), None);
}

#[test]
fn extreme_coordinates_are_not_errors() {
    let level = scenario();
    for pos in [
        [i32::MIN, i32::MIN],
        [i32::MAX, i32::MAX],
        [i32::MIN, i32::MAX],
        [i32::MAX, i32::MIN],
        [0, i32::MIN],
        [-1, -1],
    ] {
        assert!(!level.contains_floor(pos));
        assert_eq!(level.pos_tile(pos), None);
    }
    let far = LevelModel {
        spawn_point: [0, 0],
        rooms: vec![room([i32::MIN, i32::MAX], [u32::MAX, u32::MAX])],
        tilesets: vec![],
    };
    assert!(!far.contains_floor([i32::MAX, i32::MIN]));
    assert_eq!(far.pos_tile([i32::MIN, i32::MAX]), None);
}

#[test]
fn tile_group_insert_and_contains() {
    let mut g = TileGroup::new("t".to_string());
    assert!(!g.contains([0, 0]));
    g.insert(2, 3, 7);
    g.insert(2, 5, 8);
    g.insert(2, 3, 9);
    assert!(g.contains([2, 3]));
    assert!(g.contains([2, 5]));
    assert!(!g.contains([3, 2]));
    assert_eq!(g.tiles[&2][&3], 9);
    assert_eq!(g.tiles.len(), 1);
    let expected: HashMap<u32, u8> = HashMap::from([(3, 9), (5, 8)]);
    assert_eq!(g.tiles[&2], expected);
}

#[test]
fn insert_same_cell_twice_keeps_the_map() {
    let mut g = TileGroup::new("t".to_string());
    g.insert(4, 1, 6);
    let once = g.tiles.clone();
    g.insert(4, 1, 6);
    assert_eq!(g.tiles, once);
    assert!(g.tiles.values().all(|col| !col.is_empty()));
    assert_eq!(g.tiles.keys().copied().collect::<Vec<u32>>(), vec![4]);
}

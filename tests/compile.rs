use world_generator::{
    compile_project, compile_with_ids, CompileError, Definitions, EntityInstance, FieldInstances,
    FieldType, FieldValue, GridTile, LayerDefinition, LayerInstance, LayerType, Level, Project,
    TileType, TilesetDefinition,
};

fn tileset_def(uid: usize, identifier: &str, c_wid: u32, c_hei: u32) -> TilesetDefinition {
    TilesetDefinition {
        uid,
        identifier: identifier.to_string(),
        c_wid,
        c_hei,
        tile_grid_size: 16,
        rel_path: format!("art/{}.png", identifier),
        saved_selections: vec![],
    }
}

fn layer_def(uid: usize, identifier: &str, type_: LayerType, tileset: Option<usize>) -> LayerDefinition {
    LayerDefinition { uid, identifier: identifier.to_string(), type_, grid_size: 16, tileset_def_uid: tileset }
}

fn tile_layer(identifier: &str, def_uid: usize, tiles: Vec<GridTile>) -> LayerInstance {
    LayerInstance {
        identifier: identifier.to_string(),
        c_wid: 20,
        c_hei: 20,
        grid_size: 16,
        layer_def_uid: def_uid,
        grid_tiles: tiles,
        entity_instances: vec![],
    }
}

fn entity_layer(identifier: &str, def_uid: usize, entities: Vec<EntityInstance>) -> LayerInstance {
    LayerInstance {
        identifier: identifier.to_string(),
        c_wid: 20,
        c_hei: 20,
        grid_size: 16,
        layer_def_uid: def_uid,
        grid_tiles: vec![],
        entity_instances: entities,
    }
}

fn level(identifier: &str, world_x: i32, world_y: i32, layers: Vec<LayerInstance>) -> Level {
    Level {
        identifier: identifier.to_string(),
        px_wid: 320,
        px_hei: 320,
        world_x,
        world_y,
        layer_instances: layers,
    }
}

fn field(identifier: &str, value: FieldValue) -> FieldInstances {
    FieldInstances { identifier: identifier.to_string(), value }
}

fn light_entity(px: (u32, u32), fields: Vec<FieldInstances>) -> EntityInstance {
    EntityInstance { identifier: "Light".to_string(), def_uid: 50, px, field_instances: fields }
}

fn project(levels: Vec<Level>) -> Project {
    Project {
        json_version: "1.2.5".to_string(),
        default_grid_size: 16,
        defs: Definitions {
            layers: vec![
                layer_def(10, "Floor", LayerType::Tiles, Some(1)),
                layer_def(11, "Wall", LayerType::Tiles, Some(2)),
                layer_def(12, "Roof", LayerType::Tiles, Some(1)),
                layer_def(13, "Light", LayerType::Entities, None),
                layer_def(14, "Markers", LayerType::Tiles, Some(1)),
                layer_def(15, "Floor_Unwired", LayerType::Tiles, None),
            ],
            tilesets: vec![tileset_def(1, "Floor", 4, 4), tileset_def(2, "Wall", 4, 4)],
            entities: vec![],
        },
        levels,
    }
}

fn ids() -> Vec<String> {
    vec!["floor-id".to_string(), "wall-id".to_string()]
}

fn tile(px: [u32; 2], src: [u32; 2]) -> GridTile {
    GridTile { px, src }
}

#[test]
fn axis_flip_of_room_origins() {
    let p = project(vec![level("Top", 0, 0, vec![]), level("Below", 0, 320, vec![])]);
    let m = compile_with_ids(&p, 16, &ids()).unwrap();
    assert_eq!(m.rooms.len(), 2);
    assert_eq!(m.rooms[0].size, [20, 20]);
    assert_eq!(m.rooms[0].world_pos, [0, 0]);
    assert_eq!(m.rooms[1].size, [20, 20]);
    assert_eq!(m.rooms[1].world_pos, [0, -20]);
    assert_eq!(m.rooms[0].display_name, "Top");
    assert_eq!(m.spawn_point, [0, 0]);
}

#[test]
fn negative_offsets_round_down() {
    let p = project(vec![level("L", -40, -40, vec![]), level("M", 40, 40, vec![])]);
    let m = compile_with_ids(&p, 16, &ids()).unwrap();
    assert_eq!(m.rooms[0].world_pos, [-3, 3]);
    assert_eq!(m.rooms[1].world_pos, [2, -2]);
}

#[test]
fn stacked_levels_across_zero_do_not_overlap() {
    let mut upper = level("Upper", 0, -8, vec![]);
    upper.px_hei = 16;
    let mut lower = level("Lower", 0, 8, vec![]);
    lower.px_hei = 16;
    let p = project(vec![upper, lower]);
    let m = compile_with_ids(&p, 16, &ids()).unwrap();
    assert_eq!(m.rooms[0].size, [20, 1]);
    assert_eq!(m.rooms[0].world_pos, [0, 1]);
    assert_eq!(m.rooms[1].world_pos, [0, 0]);
}

#[test]
fn tiles_land_in_their_groups() {
    let layers = vec![
        tile_layer("Floor", 10, vec![tile([16, 0], [16, 0]), tile([0, 304], [48, 48])]),
        tile_layer("Wall", 11, vec![tile([32, 32], [16, 32])]),
        tile_layer("Roof", 12, vec![tile([16, 0], [0, 0])]),
        tile_layer("Markers", 14, vec![tile([0, 0], [0, 0])]),
        tile_layer("Floor_Unwired", 15, vec![tile([0, 0], [0, 0])]),
        tile_layer("Floor", 10, vec![]),
        tile_layer("Floor", 99, vec![tile([0, 0], [0, 0])]),
    ];
    let p = project(vec![level("L", 0, 0, layers)]);
    let m = compile_with_ids(&p, 16, &ids()).unwrap();
    assert_eq!(m.tilesets.len(), 2);
    assert_eq!(m.tilesets[0].uuid, "floor-id");
    assert_eq!(m.tilesets[1].uuid, "wall-id");
    assert!(m.tilesets[1].tilt);
    assert_eq!(m.tilesets[1].tiles.len(), 8);
    let r = &m.rooms[0];
    assert_eq!(r.floors.len(), 1);
    assert_eq!(r.walls.len(), 1);
    assert_eq!(r.roofs.len(), 1);
    assert_eq!(r.floors[0].tileset_uuid, "floor-id");
    // top row of the editor is the highest row of the room
    assert_eq!(r.floors[0].tiles[&1][&19], 2);
    // bottom row of the editor is row 0
    assert_eq!(r.floors[0].tiles[&0][&0], 16);
    assert_eq!(r.walls[0].tileset_uuid, "wall-id");
    assert_eq!(r.walls[0].tiles[&2][&17], 6);
    assert_eq!(r.roofs[0].tiles[&1][&19], 1);
    assert_eq!(m.pos_tile([1, 19]), Some(TileType::Roof));
    assert!(m.contains_floor([1, 19]));
    assert_eq!(m.pos_tile([2, 17]), Some(TileType::Wall));
    assert_eq!(m.pos_tile([0, 0]), Some(TileType::Floor));
    assert_eq!(m.pos_tile([5, 5]), None);
}

#[test]
fn unresolvable_tile_fails_compilation() {
    let layers = vec![
        tile_layer("Floor", 10, vec![tile([0, 0], [0, 0])]),
        tile_layer("Wall", 11, vec![tile([0, 0], [0, 0]), tile([16, 0], [0, 16])]),
    ];
    let p = project(vec![level("L", 0, 0, layers)]);
    let e = compile_with_ids(&p, 16, &ids()).unwrap_err();
    assert_eq!(e, CompileError::UnresolvedTile { level: "L".to_string(), layer: "Wall".to_string(), tile: 1 });
}

#[test]
fn tile_outside_room_fails_compilation() {
    let layers = vec![tile_layer("Floor", 10, vec![tile([320, 0], [0, 0])])];
    let p = project(vec![level("L", 0, 0, layers)]);
    let e = compile_with_ids(&p, 16, &ids()).unwrap_err();
    assert_eq!(e, CompileError::OutsideRoom { level: "L".to_string(), layer: "Floor".to_string(), item: 0 });
}

#[test]
fn lights_are_compiled() {
    let entities = vec![
        light_entity(
            (40, 0),
            vec![
                field("color", FieldValue::Color { r: 255, g: 154, b: 154 }),
                field("alpha", FieldValue::Int(229)),
                field("radius", FieldValue::Float(0x4048_0000)),
                field("inner", FieldValue::Bool(true)),
            ],
        ),
        light_entity(
            (0, 319),
            vec![
                field("color", FieldValue::Color { r: 1, g: 2, b: 3 }),
                field("alpha", FieldValue::Int(300)),
                field("inner", FieldValue::Bool(false)),
                field("color", FieldValue::Color { r: 4, g: 5, b: 6 }),
            ],
        ),
    ];
    let p = project(vec![level("L", 0, 0, vec![entity_layer("Light", 13, entities)])]);
    let m = compile_with_ids(&p, 16, &ids()).unwrap();
    let lights = &m.rooms[0].lights;
    assert_eq!(lights.len(), 2);
    assert_eq!(lights[0].pos, [2, 19, 32]);
    assert_eq!(lights[0].color, [255, 154, 154, 229]);
    assert_eq!(lights[1].pos, [0, 0, 0]);
    assert_eq!(lights[1].color, [4, 5, 6, 44]);
}

#[test]
fn light_missing_a_field_fails() {
    let entities = vec![
        light_entity((0, 0), vec![
            field("color", FieldValue::Color { r: 1, g: 2, b: 3 }),
            field("alpha", FieldValue::Int(1)),
            field("inner", FieldValue::Bool(false)),
        ]),
        light_entity((0, 0), vec![
            field("color", FieldValue::Color { r: 1, g: 2, b: 3 }),
            field("inner", FieldValue::Bool(false)),
        ]),
    ];
    let p = project(vec![level("L", 0, 0, vec![entity_layer("Light", 13, entities)])]);
    let e = compile_with_ids(&p, 16, &ids()).unwrap_err();
    assert_eq!(
        e,
        CompileError::MissingField {
            level: "L".to_string(),
            layer: "Light".to_string(),
            entity: 1,
            field: FieldType::Int,
        }
    );
}

#[test]
fn light_outside_room_fails() {
    let entities = vec![light_entity((0, 320), vec![
        field("color", FieldValue::Color { r: 1, g: 2, b: 3 }),
        field("alpha", FieldValue::Int(1)),
        field("inner", FieldValue::Bool(false)),
    ])];
    let p = project(vec![level("L", 0, 0, vec![entity_layer("Light", 13, entities)])]);
    let e = compile_with_ids(&p, 16, &ids()).unwrap_err();
    assert_eq!(e, CompileError::OutsideRoom { level: "L".to_string(), layer: "Light".to_string(), item: 0 });
}

#[test]
fn oversized_tileset_fails() {
    let mut p = project(vec![]);
    p.defs.tilesets.push(tileset_def(3, "Huge", 16, 16));
    let e = compile_with_ids(&p, 16, &vec!["a".to_string(), "b".to_string(), "c".to_string()]).unwrap_err();
    assert_eq!(e, CompileError::TilesetTooLarge { tileset: "Huge".to_string() });
}

#[test]
fn level_offset_out_of_range_fails() {
    let p = project(vec![level("Far", 0, i32::MIN, vec![])]);
    let e = compile_with_ids(&p, 1, &ids()).unwrap_err();
    assert_eq!(e, CompileError::LevelOutOfRange { level: "Far".to_string() });
    let m = compile_with_ids(&p, 2, &ids()).unwrap();
    assert_eq!(m.rooms[0].world_pos, [0, 1 << 30]);
}

#[test]
fn compile_project_names_tilesets_with_fresh_ids() {
    let layers = vec![tile_layer("Floor", 10, vec![tile([0, 0], [0, 0])])];
    let p = project(vec![level("L", 0, 0, layers)]);
    let m = compile_project(&p, 16).unwrap();
    assert_eq!(m.tilesets.len(), 2);
    assert_eq!(m.tilesets[0].uuid.len(), 36);
    assert_eq!(m.tilesets[1].uuid.len(), 36);
    assert_ne!(m.tilesets[0].uuid, m.tilesets[1].uuid);
    assert_eq!(m.rooms[0].floors[0].tileset_uuid, m.tilesets[0].uuid);
}

#[test]
fn errors_name_the_level() {
    let ok = vec![tile_layer("Floor", 10, vec![tile([0, 0], [0, 0])])];
    let bad = vec![tile_layer("Floor", 10, vec![tile([0, 0], [0, 0]), tile([0, 0], [8, 8])])];
    let p = project(vec![level("First", 0, 0, ok), level("Second", 320, 0, bad)]);
    let e = compile_with_ids(&p, 16, &ids()).unwrap_err();
    assert_eq!(
        e,
        CompileError::UnresolvedTile { level: "Second".to_string(), layer: "Floor".to_string(), tile: 1 }
    );
}

#[test]
fn compile_project_without_tilesets_draws_nothing() {
    let mut p = project(vec![level("L", 0, 320, vec![])]);
    p.defs.tilesets.clear();
    p.defs.layers.clear();
    let m = compile_project(&p, 16).unwrap();
    assert!(m.tilesets.is_empty());
    assert_eq!(m.rooms.len(), 1);
    assert_eq!(m.rooms[0].world_pos, [0, -20]);
}

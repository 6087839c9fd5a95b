//! The world compiler: from a decoded editor project to a `LevelModel`.

use crate::classify::{classify_layer, kind_of, LayerKind};
use crate::editor::{
    Definitions, EntityInstance, FieldInstances, FieldType, FieldValue, GridTile, LayerDefinition,
    LayerInstance, Level, Project, TilesetDefinition,
};
use crate::model::{
    GroupView, LevelModel, LevelView, Light, RoomModel, RoomView, TileGroup, TileSource, Tileset,
    TilesetView, group_views,
};
use crate::tileset::{build_tileset, fits, tileset_fits, tileset_of};
use vstd::prelude::*;

verus! {

/// Why a project could not be compiled. Each variant names what to fix.
#[derive(Debug, PartialEq, Eq)]
pub enum CompileError {
    /// The tileset has more than 255 tiles, or pixel coordinates past 32 bits.
    TilesetTooLarge { tileset: String },
    /// The level's world offset has no grid coordinate in 32 bits.
    LevelOutOfRange { level: String },
    /// Tile number `tile` of the layer is cut from a place that its tileset
    /// does not number.
    UnresolvedTile { level: String, layer: String, tile: usize },
    /// Tile or entity number `item` of the layer lies outside its room.
    OutsideRoom { level: String, layer: String, item: usize },
    /// Entity number `entity` of the light layer has no field of kind `field`.
    MissingField { level: String, layer: String, entity: usize, field: FieldType },
    /// No fresh tileset id unlike those already given could be drawn.
    IdCollision,
    /// The system's random source could not give a tileset id.
    NoRandomSource,
}

// ---------------------------------------------------------------- lookups

/// The first layer definition from position `i` on with the given uid.
pub open spec fn layer_def_pos(defs: Seq<LayerDefinition>, uid: usize, i: int) -> Option<usize>
    decreases defs.len() - i,
{
    if i < 0 || i >= defs.len() {
        None
    } else if defs[i].uid == uid {
        Some(i as usize)
    } else {
        layer_def_pos(defs, uid, i + 1)
    }
}

/// The first tileset definition from position `i` on with the given uid.
pub open spec fn tileset_def_pos(defs: Seq<TilesetDefinition>, uid: usize, i: int) -> Option<
    usize,
>
    decreases defs.len() - i,
{
    if i < 0 || i >= defs.len() {
        None
    } else if defs[i].uid == uid {
        Some(i as usize)
    } else {
        tileset_def_pos(defs, uid, i + 1)
    }
}

/// The tileset, by position, that a layer definition places tiles from.
pub open spec fn layer_tileset(defs: &Definitions, layer_uid: usize) -> Option<usize> {
    match layer_def_pos(defs.layers@, layer_uid, 0) {
        None => None,
        Some(d) => match defs.layers@[d as int].tileset_def_uid {
            None => None,
            Some(t) => tileset_def_pos(defs.tilesets@, t, 0),
        },
    }
}

/// The index of the first tile from position `i` on whose origin is `src`.
pub open spec fn source_index(tiles: Seq<TileSource>, src: [u32; 2], i: int) -> Option<u8>
    decreases tiles.len() - i,
{
    if i < 0 || i >= tiles.len() {
        None
    } else if tiles[i].x == src[0] && tiles[i].y == src[1] {
        Some(tiles[i].index)
    } else {
        source_index(tiles, src, i + 1)
    }
}

/// The last value of the given kind among `fields`.
pub open spec fn last_value(fields: Seq<FieldInstances>, kind: FieldType) -> Option<FieldValue>
    decreases fields.len(),
{
    if fields.len() == 0 {
        None
    } else if fields.last().value.kind() == kind {
        Some(fields.last().value)
    } else {
        last_value(fields.drop_last(), kind)
    }
}

// ---------------------------------------------------------------- coordinates

/// The room-relative cell of a pixel position in a room of `size` cells:
/// the column is `x / g`, the row counts up from the bottom row, which is 0.
pub open spec fn cell_of(x: u32, y: u32, g: u32, size: [u32; 2]) -> Option<(u32, u32)> {
    let cx = x / g;
    let cy = y / g;
    if cx < size[0] && cy < size[1] {
        Some((cx as u32, (size[1] - 1 - cy) as u32))
    } else {
        None
    }
}

/// The room size, in cells, of a level.
pub open spec fn level_size(level: &Level, g: u32) -> [u32; 2] {
    [(level.px_wid / g) as u32, (level.px_hei / g) as u32]
}

/// The grid column of a level's origin: its pixel offset divided by the grid
/// size, rounded down.
pub open spec fn origin_x(level: &Level, g: u32) -> int {
    level.world_x as int / g as int
}

/// The grid row of a level's origin: the editor's downward pixel offset
/// divided by the grid size, rounded down, then negated.
pub open spec fn origin_y(level: &Level, g: u32) -> int {
    -(level.world_y as int / g as int)
}

// ---------------------------------------------------------------- folds

/// Places tiles `i..` of a layer into `acc`, or the first placement error.
pub open spec fn place_tiles(
    level: String,
    layer: String,
    sources: Seq<TileSource>,
    g: u32,
    size: [u32; 2],
    tiles: Seq<GridTile>,
    i: int,
    acc: Map<(u32, u32), u8>,
) -> Result<Map<(u32, u32), u8>, CompileError>
    decreases tiles.len() - i,
{
    if i < 0 || i >= tiles.len() {
        Ok(acc)
    } else {
        match source_index(sources, tiles[i].src, 0) {
            None => Err(CompileError::UnresolvedTile { level, layer, tile: i as usize }),
            Some(index) => match cell_of(tiles[i].px[0], tiles[i].px[1], g, size) {
                None => Err(CompileError::OutsideRoom { level, layer, item: i as usize }),
                Some(c) => place_tiles(level, layer, sources, g, size, tiles, i + 1, acc.insert(c, index)),
            },
        }
    }
}

/// The light that entity number `idx` of a light layer stands for: its last
/// colour, integer (alpha, modulo 256) and boolean (elevated) fields, at the
/// cell of its position and at height 32 when elevated, else 0.
pub open spec fn light_of(level: String, layer: String, idx: usize, e: EntityInstance, g: u32, size: [u32; 2]) -> Result<
    Light,
    CompileError,
> {
    let fields = e.field_instances@;
    match last_value(fields, FieldType::Color) {
        Some(FieldValue::Color { r, g: gr, b }) => match last_value(fields, FieldType::Int) {
            Some(FieldValue::Int(a)) => match last_value(fields, FieldType::Bool) {
                Some(FieldValue::Bool(inner)) => match cell_of(e.px.0, e.px.1, g, size) {
                    Some((cx, cy)) => Ok(
                        Light {
                            pos: [cx, cy, if inner { 32 } else { 0 }],
                            color: [r, gr, b, (a % 256) as u8],
                        },
                    ),
                    None => Err(CompileError::OutsideRoom { level, layer, item: idx }),
                },
                _ => Err(CompileError::MissingField { level, layer, entity: idx, field: FieldType::Bool }),
            },
            _ => Err(CompileError::MissingField { level, layer, entity: idx, field: FieldType::Int }),
        },
        _ => Err(CompileError::MissingField { level, layer, entity: idx, field: FieldType::Color }),
    }
}

/// Appends the lights of entities `i..` to `acc`, or the first error.
pub open spec fn lights_from(
    level: String,
    layer: String,
    entities: Seq<EntityInstance>,
    g: u32,
    size: [u32; 2],
    i: int,
    acc: Seq<Light>,
) -> Result<Seq<Light>, CompileError>
    decreases entities.len() - i,
{
    if i < 0 || i >= entities.len() {
        Ok(acc)
    } else {
        match light_of(level, layer, i as usize, entities[i], g, size) {
            Err(e) => Err(e),
            Ok(l) => lights_from(level, layer, entities, g, size, i + 1, acc.push(l)),
        }
    }
}

/// `room` with `group` added to the list that `kind` names.
pub open spec fn with_group(room: RoomView, kind: LayerKind, group: GroupView) -> RoomView {
    match kind {
        LayerKind::Floor => RoomView { floors: room.floors.push(group), ..room },
        LayerKind::Wall => RoomView { walls: room.walls.push(group), ..room },
        LayerKind::Roof => RoomView { roofs: room.roofs.push(group), ..room },
        _ => room,
    }
}

/// What one layer adds to its room. A layer without a definition, an ignored
/// layer, a tile layer without a tileset and a tile layer without tiles add
/// nothing.
pub open spec fn layer_step(
    defs: &Definitions,
    tilesets: Seq<TilesetView>,
    g: u32,
    layer: LayerInstance,
    room: RoomView,
) -> Result<RoomView, CompileError> {
    match layer_def_pos(defs.layers@, layer.layer_def_uid, 0) {
        None => Ok(room),
        Some(d) => {
            let kind = kind_of(layer.identifier@, defs.layers@[d as int].type_);
            if kind == LayerKind::Ignored {
                Ok(room)
            } else if kind == LayerKind::Light {
                match lights_from(
                    room.display_name,
                    layer.identifier,
                    layer.entity_instances@,
                    g,
                    room.size,
                    0,
                    room.lights,
                ) {
                    Err(e) => Err(e),
                    Ok(lights) => Ok(RoomView { lights, ..room }),
                }
            } else {
                match layer_tileset(defs, layer.layer_def_uid) {
                    None => Ok(room),
                    Some(t) => if layer.grid_tiles@.len() == 0 {
                        Ok(room)
                    } else {
                        match place_tiles(
                            room.display_name,
                            layer.identifier,
                            tilesets[t as int].tiles,
                            g,
                            room.size,
                            layer.grid_tiles@,
                            0,
                            Map::empty(),
                        ) {
                            Err(e) => Err(e),
                            Ok(cells) => Ok(
                                with_group(
                                    room,
                                    kind,
                                    GroupView { tileset_uuid: tilesets[t as int].uuid, cells },
                                ),
                            ),
                        }
                    },
                }
            }
        },
    }
}

/// Folds layers `i..` into `room`, or the first error.
pub open spec fn layers_into(
    defs: &Definitions,
    tilesets: Seq<TilesetView>,
    g: u32,
    layers: Seq<LayerInstance>,
    i: int,
    room: RoomView,
) -> Result<RoomView, CompileError>
    decreases layers.len() - i,
{
    if i < 0 || i >= layers.len() {
        Ok(room)
    } else {
        match layer_step(defs, tilesets, g, layers[i], room) {
            Err(e) => Err(e),
            Ok(next) => layers_into(defs, tilesets, g, layers, i + 1, next),
        }
    }
}

/// The room compiled from one level.
pub open spec fn room_of(defs: &Definitions, tilesets: Seq<TilesetView>, g: u32, level: &Level) -> Result<
    RoomView,
    CompileError,
> {
    if origin_y(level, g) > i32::MAX {
        Err(CompileError::LevelOutOfRange { level: level.identifier })
    } else {
        let empty = RoomView {
            display_name: level.identifier,
            world_pos: [origin_x(level, g) as i32, origin_y(level, g) as i32],
            size: level_size(level, g),
            walls: Seq::empty(),
            floors: Seq::empty(),
            roofs: Seq::empty(),
            lights: Seq::empty(),
        };
        layers_into(defs, tilesets, g, level.layer_instances@, 0, empty)
    }
}

/// Appends the rooms of levels `i..` to `acc`, or the first error.
pub open spec fn rooms_from(
    defs: &Definitions,
    tilesets: Seq<TilesetView>,
    g: u32,
    levels: Seq<Level>,
    i: int,
    acc: Seq<RoomView>,
) -> Result<Seq<RoomView>, CompileError>
    decreases levels.len() - i,
{
    if i < 0 || i >= levels.len() {
        Ok(acc)
    } else {
        match room_of(defs, tilesets, g, &levels[i]) {
            Err(e) => Err(e),
            Ok(room) => rooms_from(defs, tilesets, g, levels, i + 1, acc.push(room)),
        }
    }
}

/// The first tileset definition from position `i` on that cannot be numbered.
pub open spec fn first_unfit(defs: Seq<TilesetDefinition>, i: int) -> Option<usize>
    decreases defs.len() - i,
{
    if i < 0 || i >= defs.len() {
        None
    } else if !fits(&defs[i]) {
        Some(i as usize)
    } else {
        first_unfit(defs, i + 1)
    }
}

/// The tilesets of a project, each named by the id at its position.
pub open spec fn tilesets_of(defs: Seq<TilesetDefinition>, ids: Seq<String>) -> Seq<TilesetView> {
    Seq::new(defs.len(), |i: int| tileset_of(&defs[i], ids[i]))
}

/// The world compiled from `project` with cells of `g` pixels, tileset `i`
/// being named `ids[i]`; or the first error met, tilesets first, then the
/// levels in order, their layers in order, and the items of each layer in order.
pub open spec fn compiled(project: &Project, g: u32, ids: Seq<String>) -> Result<
    LevelView,
    CompileError,
> {
    let defs = project.defs.tilesets@;
    match first_unfit(defs, 0) {
        Some(i) => Err(CompileError::TilesetTooLarge { tileset: defs[i as int].identifier }),
        None => {
            let tilesets = tilesets_of(defs, ids);
            match rooms_from(&project.defs, tilesets, g, project.levels@, 0, Seq::empty()) {
                Err(e) => Err(e),
                Ok(rooms) => Ok(LevelView { spawn_point: [0, 0], rooms, tilesets }),
            }
        },
    }
}


// ---------------------------------------------------------------- exec

fn find_layer_def(defs: &Vec<LayerDefinition>, uid: usize) -> (r: Option<usize>)
    ensures
        r == layer_def_pos(defs@, uid, 0),
        r matches Some(d) ==> d < defs@.len(),
{
    let mut i: usize = 0;
    while i < defs.len()
        invariant
            0 <= i <= defs@.len(),
            layer_def_pos(defs@, uid, 0) == layer_def_pos(defs@, uid, i as int),
        decreases defs@.len() - i,
    {
        if defs[i].uid == uid {
            return Some(i);
        }
        i += 1;
    }
    None
}

fn find_tileset_def(defs: &Vec<TilesetDefinition>, uid: usize) -> (r: Option<usize>)
    ensures
        r == tileset_def_pos(defs@, uid, 0),
        r matches Some(t) ==> t < defs@.len(),
{
    let mut i: usize = 0;
    while i < defs.len()
        invariant
            0 <= i <= defs@.len(),
            tileset_def_pos(defs@, uid, 0) == tileset_def_pos(defs@, uid, i as int),
        decreases defs@.len() - i,
    {
        if defs[i].uid == uid {
            return Some(i);
        }
        i += 1;
    }
    None
}

fn find_layer_tileset(defs: &Definitions, layer_uid: usize) -> (r: Option<usize>)
    ensures
        r == layer_tileset(defs, layer_uid),
        r matches Some(t) ==> t < defs.tilesets@.len(),
{
    match find_layer_def(&defs.layers, layer_uid) {
        None => None,
        Some(d) => match defs.layers[d].tileset_def_uid {
            None => None,
            Some(t) => find_tileset_def(&defs.tilesets, t),
        },
    }
}

fn find_source(tiles: &Vec<TileSource>, src: [u32; 2]) -> (r: Option<u8>)
    ensures
        r == source_index(tiles@, src, 0),
{
    let mut i: usize = 0;
    while i < tiles.len()
        invariant
            0 <= i <= tiles@.len(),
            source_index(tiles@, src, 0) == source_index(tiles@, src, i as int),
        decreases tiles@.len() - i,
    {
        if tiles[i].x == src[0] && tiles[i].y == src[1] {
            return Some(tiles[i].index);
        }
        i += 1;
    }
    None
}

fn find_field(fields: &Vec<FieldInstances>, kind: FieldType) -> (r: Option<FieldValue>)
    ensures
        r == last_value(fields@, kind),
{
    let mut i: usize = fields.len();
    assert(fields@.subrange(0, i as int) =~= fields@);
    while i > 0
        invariant
            0 <= i <= fields@.len(),
            last_value(fields@, kind) == last_value(fields@.subrange(0, i as int), kind),
        decreases i,
    {
        let ghost head = fields@.subrange(0, i as int);
        assert(head.drop_last() =~= fields@.subrange(0, i - 1));
        let value = fields[i - 1].value;
        let found = match (value, kind) {
            (FieldValue::Color { .. }, FieldType::Color) => true,
            (FieldValue::Int(_), FieldType::Int) => true,
            (FieldValue::Float(_), FieldType::Float) => true,
            (FieldValue::Bool(_), FieldType::Bool) => true,
            _ => false,
        };
        if found {
            return Some(value);
        }
        i -= 1;
    }
    None
}

fn cell(x: u32, y: u32, g: u32, size: [u32; 2]) -> (r: Option<(u32, u32)>)
    requires
        g > 0,
    ensures
        r == cell_of(x, y, g, size),
{
    let cx = x / g;
    let cy = y / g;
    if cx < size[0] && cy < size[1] {
        Some((cx, size[1] - 1 - cy))
    } else {
        None
    }
}

fn layer_group(
    level: &String,
    layer: &String,
    uuid: &String,
    sources: &Vec<TileSource>,
    g: u32,
    size: [u32; 2],
    tiles: &Vec<GridTile>,
) -> (r: Result<TileGroup, CompileError>)
    requires
        g > 0,
    ensures
        match r {
            Ok(group) => place_tiles(*level, *layer, sources@, g, size, tiles@, 0, Map::empty()) == Ok::<
                Map<(u32, u32), u8>,
                CompileError,
            >(group.cells()) && group.tileset_uuid == *uuid,
            Err(e) => place_tiles(*level, *layer, sources@, g, size, tiles@, 0, Map::empty()) == Err::<
                Map<(u32, u32), u8>,
                CompileError,
            >(e),
        },
{
    let mut group = TileGroup::new(uuid.clone());
    let mut i: usize = 0;
    while i < tiles.len()
        invariant
            g > 0,
            0 <= i <= tiles@.len(),
            group.tileset_uuid == *uuid,
            place_tiles(*level, *layer, sources@, g, size, tiles@, 0, Map::empty()) == place_tiles(
                *level,
                *layer,
                sources@,
                g,
                size,
                tiles@,
                i as int,
                group.cells(),
            ),
        decreases tiles@.len() - i,
    {
        let tile = tiles[i];
        match find_source(sources, tile.src) {
            None => {
                return Err(CompileError::UnresolvedTile { level: level.clone(), layer: layer.clone(), tile: i });
            },
            Some(index) => match cell(tile.px[0], tile.px[1], g, size) {
                None => {
                    return Err(CompileError::OutsideRoom { level: level.clone(), layer: layer.clone(), item: i });
                },
                Some((cx, cy)) => {
                    group.insert(cx, cy, index);
                },
            },
        }
        i += 1;
    }
    Ok(group)
}


fn light_from(level: &String, layer: &String, idx: usize, e: &EntityInstance, g: u32, size: [u32; 2]) -> (r: Result<
    Light,
    CompileError,
>)
    requires
        g > 0,
    ensures
        r == light_of(*level, *layer, idx, *e, g, size),
{
    let (r, gr, b) = match find_field(&e.field_instances, FieldType::Color) {
        Some(FieldValue::Color { r, g, b }) => (r, g, b),
        _ => {
            return Err(
                CompileError::MissingField { level: level.clone(), layer: layer.clone(), entity: idx, field: FieldType::Color },
            );
        },
    };
    let a = match find_field(&e.field_instances, FieldType::Int) {
        Some(FieldValue::Int(a)) => a,
        _ => {
            return Err(
                CompileError::MissingField { level: level.clone(), layer: layer.clone(), entity: idx, field: FieldType::Int },
            );
        },
    };
    let inner = match find_field(&e.field_instances, FieldType::Bool) {
        Some(FieldValue::Bool(inner)) => inner,
        _ => {
            return Err(
                CompileError::MissingField { level: level.clone(), layer: layer.clone(), entity: idx, field: FieldType::Bool },
            );
        },
    };
    match cell(e.px.0, e.px.1, g, size) {
        None => Err(CompileError::OutsideRoom { level: level.clone(), layer: layer.clone(), item: idx }),
        Some((cx, cy)) => {
            let height: u32 = if inner {
                32
            } else {
                0
            };
            Ok(Light { pos: [cx, cy, height], color: [r, gr, b, (a % 256) as u8] })
        },
    }
}

fn layer_lights(
    level: &String,
    layer: &String,
    entities: &Vec<EntityInstance>,
    g: u32,
    size: [u32; 2],
    lights: &mut Vec<Light>,
) -> (r: Result<(), CompileError>)
    requires
        g > 0,
    ensures
        match r {
            Ok(()) => lights_from(*level, *layer, entities@, g, size, 0, old(lights)@) == Ok::<
                Seq<Light>,
                CompileError,
            >(final(lights)@),
            Err(e) => lights_from(*level, *layer, entities@, g, size, 0, old(lights)@) == Err::<
                Seq<Light>,
                CompileError,
            >(e),
        },
{
    let mut i: usize = 0;
    while i < entities.len()
        invariant
            g > 0,
            0 <= i <= entities@.len(),
            lights_from(*level, *layer, entities@, g, size, 0, old(lights)@) == lights_from(
                *level,
                *layer,
                entities@,
                g,
                size,
                i as int,
                lights@,
            ),
        decreases entities@.len() - i,
    {
        let light = match light_from(level, layer, i, &entities[i], g, size) {
            Ok(light) => light,
            Err(e) => return Err(e),
        };
        lights.push(light);
        i += 1;
    }
    Ok(())
}

/// Adds `group` to the list of `room` that `kind` names.
fn push_group(room: &mut RoomModel, kind: LayerKind, group: TileGroup)
    requires
        kind == LayerKind::Floor || kind == LayerKind::Wall || kind == LayerKind::Roof,
    ensures
        final(room)@ == with_group(old(room)@, kind, group@),
{
    let ghost gv = group@;
    match kind {
        LayerKind::Floor => {
            room.floors.push(group);
            assert(group_views(room.floors@) =~= group_views(old(room).floors@).push(gv));
        },
        LayerKind::Wall => {
            room.walls.push(group);
            assert(group_views(room.walls@) =~= group_views(old(room).walls@).push(gv));
        },
        _ => {
            room.roofs.push(group);
            assert(group_views(room.roofs@) =~= group_views(old(room).roofs@).push(gv));
        },
    }
}

fn add_layer(
    defs: &Definitions,
    tilesets: &Vec<Tileset>,
    g: u32,
    layer: &LayerInstance,
    room: &mut RoomModel,
) -> (r: Result<(), CompileError>)
    requires
        g > 0,
        tilesets@.len() == defs.tilesets@.len(),
    ensures
        match r {
            Ok(()) => layer_step(
                defs,
                tilesets@.map_values(|t: Tileset| t@),
                g,
                *layer,
                old(room)@,
            ) == Ok::<RoomView, CompileError>(final(room)@),
            Err(e) => layer_step(defs, tilesets@.map_values(|t: Tileset| t@), g, *layer, old(room)@)
                == Err::<RoomView, CompileError>(e),
        },
{
    let d = match find_layer_def(&defs.layers, layer.layer_def_uid) {
        None => return Ok(()),
        Some(d) => d,
    };
    let kind = classify_layer(layer.identifier.as_str(), defs.layers[d].type_);
    let level = room.display_name.clone();
    match kind {
        LayerKind::Ignored => Ok(()),
        LayerKind::Light => {
            let size = room.size;
            let ghost before = room@;
            match layer_lights(&level, &layer.identifier, &layer.entity_instances, g, size, &mut room.lights) {
                Ok(()) => {},
                Err(e) => return Err(e),
            }
            assert(room@ =~= RoomView { lights: room.lights@, ..before });
            Ok(())
        },
        _ => {
            let t = match find_layer_tileset(defs, layer.layer_def_uid) {
                None => return Ok(()),
                Some(t) => t,
            };
            if layer.grid_tiles.len() == 0 {
                return Ok(());
            }
            let tileset = &tilesets[t];
            let group = match layer_group(
                &level,
                &layer.identifier,
                &tileset.uuid,
                &tileset.tiles,
                g,
                room.size,
                &layer.grid_tiles,
            ) {
                Ok(group) => group,
                Err(e) => return Err(e),
            };
            push_group(room, kind, group);
            Ok(())
        },
    }
}

/// `x / g` rounded down.
fn div_floor(x: i32, g: u32) -> (r: i64)
    requires
        g > 0,
    ensures
        r == x as int / g as int,
        -2147483648 <= r <= 2147483647,
{
    if x >= 0 {
        let q = (x as u64) / (g as u64);
        proof {
            assert(q <= x) by (nonlinear_arith)
                requires q == x as int / g as int, x >= 0, g > 0;
        }
        q as i64
    } else {
        let m: u64 = (-(x as i64)) as u64;
        let q: u64 = (m + g as u64 - 1) / g as u64;
        proof {
            let gi = g as int;
            let mi = m as int;
            vstd::arithmetic::div_mod::lemma_fundamental_div_mod(mi + gi - 1, gi);
            let rem = (mi + gi - 1) % gi;
            assert(x == -(q as int) * gi + (gi - 1 - rem)) by (nonlinear_arith)
                requires
                    mi + gi - 1 == gi * q + rem,
                    x == -mi,
            ;
            vstd::arithmetic::div_mod::lemma_fundamental_div_mod_converse(
                x as int,
                gi,
                -(q as int),
                gi - 1 - rem,
            );
            assert(q <= mi) by (nonlinear_arith)
                requires q == (mi + gi - 1) / gi, mi >= 1, gi >= 1, mi + gi - 1 == gi * q + rem, 0 <= rem;
        }
        -(q as i64)
    }
}


fn room_from_level(defs: &Definitions, tilesets: &Vec<Tileset>, g: u32, level: &Level) -> (r: Result<
    RoomModel,
    CompileError,
>)
    requires
        g > 0,
        tilesets@.len() == defs.tilesets@.len(),
    ensures
        match r {
            Ok(room) => room_of(defs, tilesets@.map_values(|t: Tileset| t@), g, level) == Ok::<
                RoomView,
                CompileError,
            >(room@),
            Err(e) => room_of(defs, tilesets@.map_values(|t: Tileset| t@), g, level) == Err::<
                RoomView,
                CompileError,
            >(e),
        },
{
    let ghost views = tilesets@.map_values(|t: Tileset| t@);
    let ox = div_floor(level.world_x, g);
    let oy = div_floor(level.world_y, g);
    if oy == -2147483648 {
        return Err(CompileError::LevelOutOfRange { level: level.identifier.clone() });
    }
    let mut room = RoomModel {
        display_name: level.identifier.clone(),
        world_pos: [ox as i32, (-oy) as i32],
        size: [level.px_wid / g, level.px_hei / g],
        walls: Vec::new(),
        floors: Vec::new(),
        roofs: Vec::new(),
        lights: Vec::new(),
    };
    let ghost empty = room@;
    assert(group_views(Seq::<TileGroup>::empty()) =~= Seq::<GroupView>::empty());
    assert(empty =~= RoomView {
        display_name: level.identifier,
        world_pos: [origin_x(level, g) as i32, origin_y(level, g) as i32],
        size: level_size(level, g),
        walls: Seq::empty(),
        floors: Seq::empty(),
        roofs: Seq::empty(),
        lights: Seq::empty(),
    });
    let layers = &level.layer_instances;
    let mut i: usize = 0;
    while i < layers.len()
        invariant
            g > 0,
            tilesets@.len() == defs.tilesets@.len(),
            views == tilesets@.map_values(|t: Tileset| t@),
            0 <= i <= layers@.len(),
            room_of(defs, views, g, level) == layers_into(defs, views, g, layers@, 0, empty),
            layers_into(defs, views, g, layers@, 0, empty) == layers_into(
                defs,
                views,
                g,
                layers@,
                i as int,
                room@,
            ),
        decreases layers@.len() - i,
    {
        match add_layer(defs, tilesets, g, &layers[i], &mut room) {
            Ok(()) => {},
            Err(e) => return Err(e),
        }
        i += 1;
    }
    Ok(room)
}

fn first_unfit_tileset(defs: &Vec<TilesetDefinition>) -> (r: Option<usize>)
    ensures
        r == first_unfit(defs@, 0),
        r matches Some(i) ==> i < defs@.len(),
        r is None ==> forall|i: int| 0 <= i < defs@.len() ==> fits(&#[trigger] defs@[i]),
{
    let mut i: usize = 0;
    while i < defs.len()
        invariant
            0 <= i <= defs@.len(),
            first_unfit(defs@, 0) == first_unfit(defs@, i as int),
            forall|j: int| 0 <= j < i ==> fits(&#[trigger] defs@[j]),
        decreases defs@.len() - i,
    {
        if !tileset_fits(&defs[i]) {
            return Some(i);
        }
        i += 1;
    }
    None
}

/// Compiles `project` with cells of `grid_size` pixels, naming tileset `i`
/// `ids[i]`; tileset ids are unique, so the ids must differ. All or nothing:
/// the first error met is returned.
pub fn compile_with_ids(project: &Project, grid_size: u32, ids: &Vec<String>) -> (r: Result<
    LevelModel,
    CompileError,
>)
    requires
        grid_size > 0,
        ids@.len() == project.defs.tilesets@.len(),
        distinct_ids(ids@),
    ensures
        match r {
            Ok(m) => compiled(project, grid_size, ids@) == Ok::<LevelView, CompileError>(m@),
            Err(e) => compiled(project, grid_size, ids@) == Err::<LevelView, CompileError>(e),
        },
{
    let defs = &project.defs.tilesets;
    if let Some(i) = first_unfit_tileset(defs) {
        return Err(CompileError::TilesetTooLarge { tileset: defs[i].identifier.clone() });
    }
    let mut tilesets: Vec<Tileset> = Vec::new();
    let mut k: usize = 0;
    while k < defs.len()
        invariant
            0 <= k <= defs@.len(),
            ids@.len() == defs@.len(),
            forall|i: int| 0 <= i < defs@.len() ==> fits(&#[trigger] defs@[i]),
            tilesets@.len() == k,
            forall|i: int| 0 <= i < k ==> (#[trigger] tilesets@[i])@ == tileset_of(
                &defs@[i],
                ids@[i],
            ),
        decreases defs@.len() - k,
    {
        let t = build_tileset(&defs[k], ids[k].clone());
        tilesets.push(t);
        k += 1;
    }
    let ghost views = tilesets@.map_values(|t: Tileset| t@);
    assert(views =~= tilesets_of(defs@, ids@));
    assert(Seq::<RoomModel>::empty().map_values(|r: RoomModel| r@) =~= Seq::<RoomView>::empty());
    let levels = &project.levels;
    let mut rooms: Vec<RoomModel> = Vec::new();
    let mut i: usize = 0;
    while i < levels.len()
        invariant
            grid_size > 0,
            tilesets@.len() == project.defs.tilesets@.len(),
            views == tilesets@.map_values(|t: Tileset| t@),
            0 <= i <= levels@.len(),
            compiled(project, grid_size, ids@) == match rooms_from(
                &project.defs,
                views,
                grid_size,
                levels@,
                0,
                Seq::empty(),
            ) {
                Err(e) => Err(e),
                Ok(rooms) => Ok(LevelView { spawn_point: [0, 0], rooms, tilesets: views }),
            },
            rooms_from(&project.defs, views, grid_size, levels@, 0, Seq::empty()) == rooms_from(
                &project.defs,
                views,
                grid_size,
                levels@,
                i as int,
                rooms@.map_values(|r: RoomModel| r@),
            ),
        decreases levels@.len() - i,
    {
        let room = match room_from_level(&project.defs, &tilesets, grid_size, &levels[i]) {
            Ok(room) => room,
            Err(e) => return Err(e),
        };
        let ghost before = rooms@.map_values(|r: RoomModel| r@);
        rooms.push(room);
        assert(rooms@.map_values(|r: RoomModel| r@) =~= before.push(room@));
        i += 1;
    }
    let m = LevelModel { spawn_point: [0, 0], rooms, tilesets };
    assert(m@ =~= LevelView {
        spawn_point: [0, 0],
        rooms: rooms@.map_values(|r: RoomModel| r@),
        tilesets: views,
    });
    Ok(m)
}


/// Relies on `getrandom::fill`: the system's random source fills the sixteen
/// bytes, or reports that it could not.
#[verifier::external_body]
fn random_bytes() -> (r: Option<[u8; 16]>) {
    let mut bytes = [0u8; 16];
    match getrandom::fill(&mut bytes) {
        Ok(()) => Some(bytes),
        Err(_) => None,
    }
}

/// Relies on `uuid::Builder::from_random_bytes` and the `Display` of
/// `uuid::Uuid`: the random (version 4) id made of these bytes, written in
/// hyphenated form, 36 characters long.
#[verifier::external_body]
fn id_from_bytes(bytes: [u8; 16]) -> (r: String)
    ensures
        r@.len() == 36,
{
    uuid::Builder::from_random_bytes(bytes).into_uuid().to_string()
}

/// A fresh random tileset id of 36 characters, or `None` when the system's
/// random source fails.
fn fresh_tileset_id() -> (r: Option<String>)
    ensures
        r matches Some(id) ==> id@.len() == 36,
{
    match random_bytes() {
        Some(bytes) => Some(id_from_bytes(bytes)),
        None => None,
    }
}

/// Whether `r` is what `compiled` gives for these ids.
pub open spec fn compiles_to(
    project: &Project,
    grid_size: u32,
    ids: Seq<String>,
    r: Result<LevelModel, CompileError>,
) -> bool {
    match r {
        Ok(m) => compiled(project, grid_size, ids) == Ok::<LevelView, CompileError>(m@),
        Err(e) => compiled(project, grid_size, ids) == Err::<LevelView, CompileError>(e),
    }
}

/// Whether no two of `ids` hold the same text.
pub open spec fn distinct_ids(ids: Seq<String>) -> bool {
    forall|i: int, j: int| 0 <= i < j < ids.len() ==> (#[trigger] ids[i])@ != (#[trigger] ids[j])@
}

/// How many ids are drawn for one tileset before giving up on finding one
/// unlike those already given.
pub const MAX_ID_DRAWS: usize = 8;

fn holds_id(ids: &Vec<String>, id: &String) -> (r: bool)
    ensures
        r == exists|i: int| 0 <= i < ids@.len() && (#[trigger] ids@[i])@ == id@,
{
    let mut i: usize = 0;
    while i < ids.len()
        invariant
            0 <= i <= ids@.len(),
            forall|j: int| 0 <= j < i ==> (#[trigger] ids@[j])@ != id@,
        decreases ids@.len() - i,
    {
        if ids[i] == *id {
            return true;
        }
        i += 1;
    }
    false
}

/// Whether `e` comes from drawing tileset ids rather than from the project.
pub open spec fn is_draw_error(e: CompileError) -> bool {
    e == CompileError::IdCollision || e == CompileError::NoRandomSource
}

proof fn lemma_place_tiles_no_draw_error(
    level: String,
    layer: String,
    sources: Seq<TileSource>,
    g: u32,
    size: [u32; 2],
    tiles: Seq<GridTile>,
    i: int,
    acc: Map<(u32, u32), u8>,
)
    ensures
        place_tiles(level, layer, sources, g, size, tiles, i, acc) matches Err(e) ==> !is_draw_error(e),
    decreases tiles.len() - i,
{
    if 0 <= i < tiles.len() {
        if let Some(index) = source_index(sources, tiles[i].src, 0) {
            if let Some(c) = cell_of(tiles[i].px[0], tiles[i].px[1], g, size) {
                lemma_place_tiles_no_draw_error(
                    level,
                    layer,
                    sources,
                    g,
                    size,
                    tiles,
                    i + 1,
                    acc.insert(c, index),
                );
            }
        }
    }
}

proof fn lemma_lights_no_draw_error(
    level: String,
    layer: String,
    entities: Seq<EntityInstance>,
    g: u32,
    size: [u32; 2],
    i: int,
    acc: Seq<Light>,
)
    ensures
        lights_from(level, layer, entities, g, size, i, acc) matches Err(e) ==> !is_draw_error(e),
    decreases entities.len() - i,
{
    if 0 <= i < entities.len() {
        if let Ok(l) = light_of(level, layer, i as usize, entities[i], g, size) {
            lemma_lights_no_draw_error(level, layer, entities, g, size, i + 1, acc.push(l));
        }
    }
}

proof fn lemma_layers_no_draw_error(
    defs: &Definitions,
    tilesets: Seq<TilesetView>,
    g: u32,
    layers: Seq<LayerInstance>,
    i: int,
    room: RoomView,
)
    ensures
        layers_into(defs, tilesets, g, layers, i, room) matches Err(e) ==> !is_draw_error(e),
    decreases layers.len() - i,
{
    if 0 <= i < layers.len() {
        let layer = layers[i];
        lemma_lights_no_draw_error(
            room.display_name,
            layer.identifier,
            layer.entity_instances@,
            g,
            room.size,
            0,
            room.lights,
        );
        if let Some(t) = layer_tileset(defs, layer.layer_def_uid) {
            lemma_place_tiles_no_draw_error(
                room.display_name,
                layer.identifier,
                tilesets[t as int].tiles,
                g,
                room.size,
                layer.grid_tiles@,
                0,
                Map::empty(),
            );
        }
        if let Ok(next) = layer_step(defs, tilesets, g, layer, room) {
            lemma_layers_no_draw_error(defs, tilesets, g, layers, i + 1, next);
        }
    }
}

proof fn lemma_rooms_no_draw_error(
    defs: &Definitions,
    tilesets: Seq<TilesetView>,
    g: u32,
    levels: Seq<Level>,
    i: int,
    acc: Seq<RoomView>,
)
    ensures
        rooms_from(defs, tilesets, g, levels, i, acc) matches Err(e) ==> !is_draw_error(e),
    decreases levels.len() - i,
{
    if 0 <= i < levels.len() {
        let level = &levels[i];
        let empty = RoomView {
            display_name: level.identifier,
            world_pos: [origin_x(level, g) as i32, origin_y(level, g) as i32],
            size: level_size(level, g),
            walls: Seq::empty(),
            floors: Seq::empty(),
            roofs: Seq::empty(),
            lights: Seq::empty(),
        };
        lemma_layers_no_draw_error(defs, tilesets, g, level.layer_instances@, 0, empty);
        if let Ok(room) = room_of(defs, tilesets, g, level) {
            lemma_rooms_no_draw_error(defs, tilesets, g, levels, i + 1, acc.push(room));
        }
    }
}

/// Compiling never fails for want of tileset ids: those errors come only from
/// drawing them.
proof fn lemma_never_draw_error(project: &Project, g: u32, ids: Seq<String>)
    ensures
        compiled(project, g, ids) matches Err(e) ==> !is_draw_error(e),
{
    lemma_rooms_no_draw_error(
        &project.defs,
        tilesets_of(project.defs.tilesets@, ids),
        g,
        project.levels@,
        0,
        Seq::empty(),
    );
}

/// Compiles `project` with cells of `grid_size` pixels, giving each tileset a
/// fresh random id, drawn again while it repeats an earlier one. The result
/// is what `compile_with_ids` gives for some pairwise distinct ids of 36
/// characters, one per tileset; or `NoRandomSource` when the system's random
/// source fails; or `IdCollision` when `MAX_ID_DRAWS` draws in a row all
/// repeated an earlier id, which cannot happen with at most one tileset. A
/// project without tilesets draws nothing and is compiled as it stands.
pub fn compile_project(project: &Project, grid_size: u32) -> (r: Result<LevelModel, CompileError>)
    requires
        grid_size > 0,
    ensures
        (r matches Err(e) && is_draw_error(e)) || exists|ids: Seq<String>|
            {
                &&& ids.len() == project.defs.tilesets@.len()
                &&& forall|i: int| 0 <= i < ids.len() ==> (#[trigger] ids[i])@.len() == 36
                &&& distinct_ids(ids)
                &&& compiles_to(project, grid_size, ids, r)
            },
        project.defs.tilesets@.len() <= 1 ==> r != Err::<LevelModel, CompileError>(
            CompileError::IdCollision,
        ),
        project.defs.tilesets@.len() == 0 ==> compiles_to(project, grid_size, Seq::empty(), r),
{
    let mut ids: Vec<String> = Vec::new();
    let n = project.defs.tilesets.len();
    while ids.len() < n
        invariant
            n == project.defs.tilesets@.len(),
            ids@.len() <= n,
            forall|i: int| 0 <= i < ids@.len() ==> (#[trigger] ids@[i])@.len() == 36,
            distinct_ids(ids@),
        decreases n - ids@.len(),
    {
        let mut id = match fresh_tileset_id() {
            Some(id) => id,
            None => return Err(CompileError::NoRandomSource),
        };
        let mut draws: usize = 1;
        while draws < MAX_ID_DRAWS && holds_id(&ids, &id)
            invariant
                id@.len() == 36,
                n == project.defs.tilesets@.len(),
                ids@.len() < n,
            decreases MAX_ID_DRAWS - draws,
        {
            id = match fresh_tileset_id() {
                Some(id) => id,
                None => return Err(CompileError::NoRandomSource),
            };
            draws += 1;
        }
        if holds_id(&ids, &id) {
            return Err(CompileError::IdCollision);
        }
        let ghost before = ids@;
        ids.push(id);
        assert(distinct_ids(ids@)) by {
            assert forall|i: int, j: int| 0 <= i < j < ids@.len() implies (#[trigger] ids@[i])@
                != (#[trigger] ids@[j])@ by {
                if j < before.len() {
                    assert(ids@[i] == before[i] && ids@[j] == before[j]);
                } else {
                    assert(ids@[i] == before[i]);
                }
            }
        }
    }
    let r = compile_with_ids(project, grid_size, &ids);
    proof {
        lemma_never_draw_error(project, grid_size, ids@);
        assert(compiles_to(project, grid_size, ids@, r));
        if n == 0 {
            assert(ids@ =~= Seq::<String>::empty());
        }
    }
    r
}

} // verus!

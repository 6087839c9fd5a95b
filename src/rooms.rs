//! What every compiled room satisfies: its tiles and lights lie inside it,
//! its frame follows its level, the editor's downward axis is flipped, and a
//! tile its tileset does not number fails the compilation.

use crate::classify::{kind_of, LayerKind};
use crate::compile::{
    cell_of, compiled, first_unfit, layer_def_pos, layer_step, layer_tileset, layers_into,
    level_size, light_of, lights_from, origin_x, origin_y, place_tiles, room_of, rooms_from,
    source_index, tileset_def_pos, tilesets_of, CompileError,
};
use crate::editor::{
    Definitions, EntityInstance, GridTile, LayerInstance, Level, Project, TilesetDefinition,
};
use crate::model::{GroupView, Light, RoomView, TileSource, TilesetView};
use crate::tileset::tileset_of;
use vstd::prelude::*;

verus! {

// ---------------------------------------------------------------- room invariant

/// Every cell of `cells` lies within `[0, size[0]) × [0, size[1])`.
pub open spec fn cells_in_bounds(cells: Map<(u32, u32), u8>, size: [u32; 2]) -> bool {
    forall|c: (u32, u32)| #[trigger] cells.contains_key(c) ==> c.0 < size[0] && c.1 < size[1]
}

/// Every group of `groups` lies within a room of `size` cells.
pub open spec fn groups_in_bounds(groups: Seq<GroupView>, size: [u32; 2]) -> bool {
    forall|i: int| 0 <= i < groups.len() ==> cells_in_bounds(#[trigger] groups[i].cells, size)
}

/// Every light of `lights` stands on a cell of a room of `size` cells.
pub open spec fn lights_in_bounds(lights: Seq<Light>, size: [u32; 2]) -> bool {
    forall|i: int|
        0 <= i < lights.len() ==> (#[trigger] lights[i]).pos[0] < size[0] && lights[i].pos[1]
            < size[1]
}

/// Every tile and light of the room lies within its bounds.
pub open spec fn room_in_bounds(room: RoomView) -> bool {
    &&& groups_in_bounds(room.walls, room.size)
    &&& groups_in_bounds(room.floors, room.size)
    &&& groups_in_bounds(room.roofs, room.size)
    &&& lights_in_bounds(room.lights, room.size)
}

proof fn lemma_place_tiles_in_bounds(
    level: String,
    layer: String,
    sources: Seq<TileSource>,
    g: u32,
    size: [u32; 2],
    tiles: Seq<GridTile>,
    i: int,
    acc: Map<(u32, u32), u8>,
)
    requires
        g > 0,
        cells_in_bounds(acc, size),
    ensures
        place_tiles(level, layer, sources, g, size, tiles, i, acc) matches Ok(m) ==> cells_in_bounds(
            m,
            size,
        ),
    decreases tiles.len() - i,
{
    if 0 <= i < tiles.len() {
        if let Some(index) = source_index(sources, tiles[i].src, 0) {
            if let Some(c) = cell_of(tiles[i].px[0], tiles[i].px[1], g, size) {
                let next = acc.insert(c, index);
                assert(c.0 < size[0] && c.1 < size[1]);
                lemma_place_tiles_in_bounds(level, layer, sources, g, size, tiles, i + 1, next);
            }
        }
    }
}

proof fn lemma_lights_in_bounds(
    level: String,
    layer: String,
    entities: Seq<EntityInstance>,
    g: u32,
    size: [u32; 2],
    i: int,
    acc: Seq<Light>,
)
    requires
        g > 0,
        lights_in_bounds(acc, size),
    ensures
        lights_from(level, layer, entities, g, size, i, acc) matches Ok(ls) ==> lights_in_bounds(
            ls,
            size,
        ),
    decreases entities.len() - i,
{
    if 0 <= i < entities.len() {
        if let Ok(l) = light_of(level, layer, i as usize, entities[i], g, size) {
            let next = acc.push(l);
            assert(l.pos[0] < size[0] && l.pos[1] < size[1]);
            assert(lights_in_bounds(next, size));
            lemma_lights_in_bounds(level, layer, entities, g, size, i + 1, next);
        }
    }
}

proof fn lemma_layer_step_in_bounds(
    defs: &Definitions,
    tilesets: Seq<TilesetView>,
    g: u32,
    layer: LayerInstance,
    room: RoomView,
)
    requires
        g > 0,
        room_in_bounds(room),
    ensures
        layer_step(defs, tilesets, g, layer, room) matches Ok(next) ==> room_in_bounds(next)
            && next.size == room.size,
{
    if let Some(d) = layer_def_pos(defs.layers@, layer.layer_def_uid, 0) {
        let kind = kind_of(layer.identifier@, defs.layers@[d as int].type_);
        if kind == LayerKind::Light {
            lemma_lights_in_bounds(
                room.display_name,
                layer.identifier,
                layer.entity_instances@,
                g,
                room.size,
                0,
                room.lights,
            );
        } else if kind != LayerKind::Ignored {
            if let Some(t) = layer_tileset(defs, layer.layer_def_uid) {
                let empty = Map::<(u32, u32), u8>::empty();
                lemma_place_tiles_in_bounds(
                    room.display_name,
                    layer.identifier,
                    tilesets[t as int].tiles,
                    g,
                    room.size,
                    layer.grid_tiles@,
                    0,
                    empty,
                );
            }
        }
    }
}

proof fn lemma_layers_into_in_bounds(
    defs: &Definitions,
    tilesets: Seq<TilesetView>,
    g: u32,
    layers: Seq<LayerInstance>,
    i: int,
    room: RoomView,
)
    requires
        g > 0,
        room_in_bounds(room),
    ensures
        layers_into(defs, tilesets, g, layers, i, room) matches Ok(r) ==> room_in_bounds(r)
            && r.size == room.size,
    decreases layers.len() - i,
{
    if 0 <= i < layers.len() {
        lemma_layer_step_in_bounds(defs, tilesets, g, layers[i], room);
        if let Ok(next) = layer_step(defs, tilesets, g, layers[i], room) {
            lemma_layers_into_in_bounds(defs, tilesets, g, layers, i + 1, next);
        }
    }
}

proof fn lemma_rooms_in_bounds(
    defs: &Definitions,
    tilesets: Seq<TilesetView>,
    g: u32,
    levels: Seq<Level>,
    i: int,
    acc: Seq<RoomView>,
)
    requires
        g > 0,
        forall|j: int| 0 <= j < acc.len() ==> room_in_bounds(#[trigger] acc[j]),
    ensures
        rooms_from(defs, tilesets, g, levels, i, acc) matches Ok(rooms) ==> forall|j: int|
            0 <= j < rooms.len() ==> room_in_bounds(#[trigger] rooms[j]),
    decreases levels.len() - i,
{
    if 0 <= i < levels.len() {
        let level = &levels[i];
        if origin_y(level, g) <= i32::MAX {
            let empty = RoomView {
                display_name: level.identifier,
                world_pos: [origin_x(level, g) as i32, origin_y(level, g) as i32],
                size: level_size(level, g),
                walls: Seq::empty(),
                floors: Seq::empty(),
                roofs: Seq::empty(),
                lights: Seq::empty(),
            };
            lemma_layers_into_in_bounds(defs, tilesets, g, level.layer_instances@, 0, empty);
        }
        if let Ok(room) = room_of(defs, tilesets, g, level) {
            let next = acc.push(room);
            assert forall|j: int| 0 <= j < next.len() implies room_in_bounds(#[trigger] next[j]) by {
                if j < acc.len() {
                    assert(next[j] == acc[j]);
                }
            }
            lemma_rooms_in_bounds(defs, tilesets, g, levels, i + 1, next);
        }
    }
}

/// A compiled world keeps every tile of every group, and every light, inside
/// its room: room-relative cells lie in `[0, size.x) × [0, size.y)`.
pub proof fn lemma_compiled_rooms_in_bounds(project: &Project, g: u32, ids: Seq<String>)
    requires
        g > 0,
    ensures
        compiled(project, g, ids) matches Ok(level) ==> forall|j: int|
            0 <= j < level.rooms.len() ==> room_in_bounds(#[trigger] level.rooms[j]),
{
    let defs = project.defs.tilesets@;
    if first_unfit(defs, 0) is None {
        lemma_rooms_in_bounds(
            &project.defs,
            tilesets_of(defs, ids),
            g,
            project.levels@,
            0,
            Seq::empty(),
        );
    }
}


// ---------------------------------------------------------------- room frames

proof fn lemma_layers_keep_frame(
    defs: &Definitions,
    tilesets: Seq<TilesetView>,
    g: u32,
    layers: Seq<LayerInstance>,
    i: int,
    room: RoomView,
)
    ensures
        layers_into(defs, tilesets, g, layers, i, room) matches Ok(r) ==> r.world_pos
            == room.world_pos && r.size == room.size,
    decreases layers.len() - i,
{
    if 0 <= i < layers.len() {
        if let Ok(next) = layer_step(defs, tilesets, g, layers[i], room) {
            lemma_layers_keep_frame(defs, tilesets, g, layers, i + 1, next);
        }
    }
}

proof fn lemma_rooms_follow_levels(
    defs: &Definitions,
    tilesets: Seq<TilesetView>,
    g: u32,
    levels: Seq<Level>,
    i: int,
    acc: Seq<RoomView>,
)
    requires
        0 <= i <= levels.len(),
        acc.len() == i,
        forall|k: int| 0 <= k < i ==> room_of(defs, tilesets, g, &levels[k]) == Ok::<
            RoomView,
            CompileError,
        >(#[trigger] acc[k]),
    ensures
        rooms_from(defs, tilesets, g, levels, i, acc) matches Ok(rooms) ==> {
            &&& rooms.len() == levels.len()
            &&& forall|k: int|
                0 <= k < levels.len() ==> room_of(defs, tilesets, g, &levels[k]) == Ok::<
                    RoomView,
                    CompileError,
                >(#[trigger] rooms[k])
        },
    decreases levels.len() - i,
{
    if i < levels.len() {
        if let Ok(room) = room_of(defs, tilesets, g, &levels[i]) {
            let next = acc.push(room);
            assert forall|k: int| 0 <= k < i + 1 implies room_of(defs, tilesets, g, &levels[k])
                == Ok::<RoomView, CompileError>(#[trigger] next[k]) by {
                if k < i {
                    assert(next[k] == acc[k]);
                }
            }
            lemma_rooms_follow_levels(defs, tilesets, g, levels, i + 1, next);
        }
    }
}

/// A compiled world has one room per level, in the order of the levels: room
/// `k` is what level `k` compiles to.
pub proof fn lemma_room_per_level(project: &Project, g: u32, ids: Seq<String>)
    ensures
        compiled(project, g, ids) matches Ok(level) ==> {
            &&& level.rooms.len() == project.levels@.len()
            &&& forall|k: int|
                0 <= k < level.rooms.len() ==> room_of(
                    &project.defs,
                    level.tilesets,
                    g,
                    &project.levels@[k],
                ) == Ok::<RoomView, CompileError>(#[trigger] level.rooms[k])
        },
{
    let defs = project.defs.tilesets@;
    if first_unfit(defs, 0) is None {
        lemma_rooms_follow_levels(
            &project.defs,
            tilesets_of(defs, ids),
            g,
            project.levels@,
            0,
            Seq::empty(),
        );
    }
}

/// `x / g` lies between `x` and 0.
proof fn lemma_div_within(x: int, g: int)
    requires
        g > 0,
    ensures
        x >= 0 ==> 0 <= x / g <= x,
        x < 0 ==> x <= x / g < 0,
{
    vstd::arithmetic::div_mod::lemma_fundamental_div_mod(x, g);
    let q = x / g;
    let r = x % g;
    assert(x >= 0 ==> 0 <= q <= x) by (nonlinear_arith)
        requires x == g * q + r, 0 <= r < g, g > 0;
    assert(x < 0 ==> x <= q < 0) by (nonlinear_arith)
        requires x == g * q + r, 0 <= r < g, g > 0;
}

/// The frame of the room a level compiles to: `size` is the pixel size divided
/// by the grid size, and `world_pos` is the pixel offset divided by the grid
/// size, rounded down, with the vertical axis negated.
pub proof fn lemma_room_frame(defs: &Definitions, tilesets: Seq<TilesetView>, g: u32, level: &Level)
    requires
        g > 0,
    ensures
        room_of(defs, tilesets, g, level) matches Ok(room) ==> {
            &&& room.size == level_size(level, g)
            &&& room.world_pos[0] == origin_x(level, g)
            &&& room.world_pos[1] == origin_y(level, g)
        },
{
    if origin_y(level, g) <= i32::MAX {
        let empty = RoomView {
            display_name: level.identifier,
            world_pos: [origin_x(level, g) as i32, origin_y(level, g) as i32],
            size: level_size(level, g),
            walls: Seq::empty(),
            floors: Seq::empty(),
            roofs: Seq::empty(),
            lights: Seq::empty(),
        };
        lemma_div_within(level.world_x as int, g as int);
        lemma_div_within(level.world_y as int, g as int);
        lemma_layers_keep_frame(defs, tilesets, g, level.layer_instances@, 0, empty);
    }
}

/// Axis flip: a level placed one level-height below another in the editor
/// (whose y axis grows downward) compiles to a room one room-height below in
/// the world (whose y axis grows upward), in the same column.
pub proof fn lemma_axis_flip(
    defs: &Definitions,
    tilesets: Seq<TilesetView>,
    g: u32,
    upper: &Level,
    lower: &Level,
)
    requires
        g > 0,
        upper.px_hei % g == 0,
        lower.world_x == upper.world_x,
        lower.world_y == upper.world_y + upper.px_hei,
    ensures
        room_of(defs, tilesets, g, upper) matches Ok(a) ==> (room_of(
            defs,
            tilesets,
            g,
            lower,
        ) matches Ok(b) ==> b.world_pos[0] == a.world_pos[0] && b.world_pos[1] == a.world_pos[1]
            - a.size[1]),
{
    lemma_room_frame(defs, tilesets, g, upper);
    lemma_room_frame(defs, tilesets, g, lower);
    let wy = upper.world_y as int;
    let h = upper.px_hei as int;
    let gi = g as int;
    vstd::arithmetic::div_mod::lemma_fundamental_div_mod(wy, gi);
    vstd::arithmetic::div_mod::lemma_fundamental_div_mod(h, gi);
    let q = wy / gi;
    let r = wy % gi;
    let hq = h / gi;
    assert(wy + h == (q + hq) * gi + r) by (nonlinear_arith)
        requires wy == gi * q + r, h == gi * hq + 0;
    vstd::arithmetic::div_mod::lemma_fundamental_div_mod_converse(wy + h, gi, q + hq, r);
}

// ---------------------------------------------------------------- unresolved tiles

/// Whether the error `e` points into the layer named `layer` of the level
/// named `level`.
pub open spec fn names_layer(e: CompileError, level: String, layer: String) -> bool {
    match e {
        CompileError::UnresolvedTile { level: v, layer: l, .. } => v == level && l == layer,
        CompileError::OutsideRoom { level: v, layer: l, .. } => v == level && l == layer,
        CompileError::MissingField { level: v, layer: l, .. } => v == level && l == layer,
        _ => false,
    }
}

proof fn lemma_place_tiles_unresolved(
    level: String,
    layer: String,
    sources: Seq<TileSource>,
    g: u32,
    size: [u32; 2],
    tiles: Seq<GridTile>,
    i: int,
    acc: Map<(u32, u32), u8>,
    k: int,
)
    requires
        0 <= i <= k < tiles.len(),
        source_index(sources, tiles[k].src, 0) is None,
    ensures
        place_tiles(level, layer, sources, g, size, tiles, i, acc) matches Err(e) && names_layer(
            e,
            level,
            layer,
        ),
    decreases k - i,
{
    if let Some(index) = source_index(sources, tiles[i].src, 0) {
        if let Some(c) = cell_of(tiles[i].px[0], tiles[i].px[1], g, size) {
            lemma_place_tiles_unresolved(
                level,
                layer,
                sources,
                g,
                size,
                tiles,
                i + 1,
                acc.insert(c, index),
                k,
            );
        }
    }
}

/// A tile layer whose tiles feed a room (classified floor, wall or roof, with
/// a tileset) and that places a tile cut from a place its tileset does not
/// number fails, whatever room it is added to, with an error naming the layer.
pub proof fn lemma_layer_with_unresolved_tile(
    defs: &Definitions,
    tilesets: Seq<TilesetView>,
    g: u32,
    layer: LayerInstance,
    room: RoomView,
    k: int,
)
    requires
        layer_def_pos(defs.layers@, layer.layer_def_uid, 0) matches Some(d) && {
            let kind = kind_of(layer.identifier@, defs.layers@[d as int].type_);
            kind != LayerKind::Ignored && kind != LayerKind::Light
        },
        layer_tileset(defs, layer.layer_def_uid) matches Some(t) && source_index(
            tilesets[t as int].tiles,
            layer.grid_tiles@[k].src,
            0,
        ) is None,
        0 <= k < layer.grid_tiles@.len(),
    ensures
        layer_step(defs, tilesets, g, layer, room) matches Err(e) && names_layer(
            e,
            room.display_name,
            layer.identifier,
        ),
{
    let t = layer_tileset(defs, layer.layer_def_uid).unwrap();
    lemma_place_tiles_unresolved(
        room.display_name,
        layer.identifier,
        tilesets[t as int].tiles,
        g,
        room.size,
        layer.grid_tiles@,
        0,
        Map::empty(),
        k,
    );
}

proof fn lemma_layers_into_fails(
    defs: &Definitions,
    tilesets: Seq<TilesetView>,
    g: u32,
    layers: Seq<LayerInstance>,
    i: int,
    room: RoomView,
    l: int,
)
    requires
        0 <= i <= l < layers.len(),
        forall|r: RoomView| #[trigger] layer_step(defs, tilesets, g, layers[l], r) is Err,
    ensures
        layers_into(defs, tilesets, g, layers, i, room) is Err,
    decreases l - i,
{
    assert(layer_step(defs, tilesets, g, layers[l], room) is Err);
    if let Ok(next) = layer_step(defs, tilesets, g, layers[i], room) {
        lemma_layers_into_fails(defs, tilesets, g, layers, i + 1, next, l);
    }
}

proof fn lemma_rooms_from_fails(
    defs: &Definitions,
    tilesets: Seq<TilesetView>,
    g: u32,
    levels: Seq<Level>,
    i: int,
    acc: Seq<RoomView>,
    j: int,
)
    requires
        0 <= i <= j < levels.len(),
        room_of(defs, tilesets, g, &levels[j]) is Err,
    ensures
        rooms_from(defs, tilesets, g, levels, i, acc) is Err,
    decreases j - i,
{
    if let Ok(room) = room_of(defs, tilesets, g, &levels[i]) {
        lemma_rooms_from_fails(defs, tilesets, g, levels, i + 1, acc.push(room), j);
    }
}

proof fn lemma_tileset_def_pos_in_range(defs: Seq<TilesetDefinition>, uid: usize, i: int)
    ensures
        tileset_def_pos(defs, uid, i) matches Some(p) ==> p < defs.len(),
    decreases defs.len() - i,
{
    if 0 <= i < defs.len() && defs[i].uid != uid {
        lemma_tileset_def_pos_in_range(defs, uid, i + 1);
    }
}

/// A project in which layer `l` of level `j` feeds a room with tiles (floor,
/// wall or roof, with a tileset) and places tile `k` cut from a place its
/// tileset does not number cannot be compiled: there is no partial model.
pub proof fn lemma_unresolved_tile_fails(
    project: &Project,
    g: u32,
    ids: Seq<String>,
    j: int,
    l: int,
    k: int,
)
    requires
        0 <= j < project.levels@.len(),
        0 <= l < project.levels@[j].layer_instances@.len(),
        ({
            let layer = project.levels@[j].layer_instances@[l];
            &&& layer_def_pos(project.defs.layers@, layer.layer_def_uid, 0) matches Some(d) && {
                let kind = kind_of(layer.identifier@, project.defs.layers@[d as int].type_);
                kind != LayerKind::Ignored && kind != LayerKind::Light
            }
            &&& layer_tileset(&project.defs, layer.layer_def_uid) matches Some(t) && source_index(
                tileset_of(&project.defs.tilesets@[t as int], ids[t as int]).tiles,
                layer.grid_tiles@[k].src,
                0,
            ) is None
            &&& 0 <= k < layer.grid_tiles@.len()
        }),
    ensures
        compiled(project, g, ids) is Err,
{
    let defs = project.defs.tilesets@;
    if first_unfit(defs, 0) is None {
        let tilesets = tilesets_of(defs, ids);
        let level = &project.levels@[j];
        let layers = level.layer_instances@;
        let layer = layers[l];
        let t = layer_tileset(&project.defs, layer.layer_def_uid).unwrap();
        let d = layer_def_pos(project.defs.layers@, layer.layer_def_uid, 0).unwrap();
        lemma_tileset_def_pos_in_range(defs, project.defs.layers@[d as int].tileset_def_uid.unwrap(), 0);
        assert(tilesets[t as int] == tileset_of(&defs[t as int], ids[t as int]));
        assert forall|r: RoomView| #[trigger]
            layer_step(&project.defs, tilesets, g, layers[l], r) is Err by {
            lemma_layer_with_unresolved_tile(&project.defs, tilesets, g, layer, r, k);
        }
        if origin_y(level, g) <= i32::MAX {
            let empty = RoomView {
                display_name: level.identifier,
                world_pos: [origin_x(level, g) as i32, origin_y(level, g) as i32],
                size: level_size(level, g),
                walls: Seq::empty(),
                floors: Seq::empty(),
                roofs: Seq::empty(),
                lights: Seq::empty(),
            };
            lemma_layers_into_fails(&project.defs, tilesets, g, layers, 0, empty, l);
        }
        lemma_rooms_from_fails(&project.defs, tilesets, g, project.levels@, 0, Seq::empty(), j);
    }
}

} // verus!

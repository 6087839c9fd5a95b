//! The compiled world model and its spatial queries.

use std::collections::HashMap;
use vstd::prelude::*;

verus! {

broadcast use vstd::std_specs::hash::group_hash_axioms;

/// The category of tile found at a grid cell.
#[derive(Debug, Clone, Copy, PartialEq, Eq, Structural)]
pub enum TileType {
    Floor,
    Wall,
    Roof,
}

/// A sparse grid of tile indices drawn from one tileset: column, then row.
/// Coordinates are relative to the owning room's origin.
#[derive(Debug)]
pub struct TileGroup {
    pub tileset_uuid: String,
    pub tiles: HashMap<u32, HashMap<u32, u8>>,
}

/// The cells of a group, keyed by `(column, row)`.
pub open spec fn cells_of(tiles: Map<u32, HashMap<u32, u8>>) -> Map<(u32, u32), u8> {
    Map::new(
        |p: (u32, u32)| tiles.contains_key(p.0) && tiles[p.0]@.contains_key(p.1),
        |p: (u32, u32)| tiles[p.0]@[p.1],
    )
}

impl TileGroup {
    /// The tile index stored at each occupied cell.
    pub open spec fn cells(&self) -> Map<(u32, u32), u8> {
        cells_of(self.tiles@)
    }

    /// Whether every column present holds at least one tile.
    pub open spec fn columns_nonempty(&self) -> bool {
        forall|k: u32| #[trigger] self.tiles@.contains_key(k) ==> self.tiles@[k]@.len() > 0
    }

    /// An empty group drawing from the tileset `tileset_uuid`.
    pub fn new(tileset_uuid: String) -> (r: TileGroup)
        ensures
            r.tileset_uuid == tileset_uuid,
            r.tiles@ == Map::<u32, HashMap<u32, u8>>::empty(),
            r.cells() == Map::<(u32, u32), u8>::empty(),
            r.columns_nonempty(),
    {
        let r = TileGroup { tileset_uuid, tiles: HashMap::new() };
        assert(r.cells() =~= Map::<(u32, u32), u8>::empty());
        r
    }

    /// Whether any tile is recorded at `grid_pos`.
    pub fn contains(&self, grid_pos: [u32; 2]) -> (r: bool)
        ensures
            r == self.cells().contains_key((grid_pos[0], grid_pos[1])),
    {
        match self.tiles.get(&grid_pos[0]) {
            Some(col) => col.get(&grid_pos[1]).is_some(),
            None => false,
        }
    }

    /// Records tile `index` at `(grid_x, grid_y)`, replacing what was there.
    pub fn insert(&mut self, grid_x: u32, grid_y: u32, index: u8)
        ensures
            final(self).tileset_uuid == old(self).tileset_uuid,
            final(self).tiles@.dom() == old(self).tiles@.dom().insert(grid_x),
            forall|k: u32|
                k != grid_x && old(self).tiles@.contains_key(k) ==> (#[trigger] final(self).tiles@[k])@
                    == old(self).tiles@[k]@,
            final(self).tiles@[grid_x]@ == (if old(self).tiles@.contains_key(grid_x) {
                old(self).tiles@[grid_x]@
            } else {
                Map::<u32, u8>::empty()
            }).insert(grid_y, index),
            final(self).cells() == old(self).cells().insert((grid_x, grid_y), index),
            old(self).columns_nonempty() ==> final(self).columns_nonempty(),
    {
        let ghost before = self.cells();
        let col = self.tiles.remove(&grid_x);
        let mut col = match col {
            Some(c) => c,
            None => HashMap::new(),
        };
        col.insert(grid_y, index);
        self.tiles.insert(grid_x, col);
        assert(self.tiles@.dom() =~= old(self).tiles@.dom().insert(grid_x));
        assert(self.cells() =~= before.insert((grid_x, grid_y), index));
    }
}


/// A point light: grid position and emission height band, then RGBA colour.
#[derive(Debug, Clone, Copy)]
pub struct Light {
    pub pos: [u32; 3],
    pub color: [u8; 4],
}

/// One entry of a tileset: tile `index` is cut from the source image at
/// pixel origin `(x, y)` with the given width and height.
#[derive(Debug, Clone, Copy, PartialEq, Eq, Structural)]
pub struct TileSource {
    pub index: u8,
    pub x: u32,
    pub y: u32,
    pub width: u32,
    pub height: u32,
}

/// How tile indices map to regions of one source image.
#[derive(Debug)]
pub struct Tileset {
    pub uuid: String,
    pub src: String,
    pub tiles: Vec<TileSource>,
    /// Tiles stand two grid rows tall (wall art).
    pub tilt: bool,
}

/// A rectangular room of the world with its tile groups and lights.
#[derive(Debug)]
pub struct RoomModel {
    pub display_name: String,
    /// Grid coordinate of the room's origin corner.
    pub world_pos: [i32; 2],
    /// Width and height in grid cells.
    pub size: [u32; 2],
    pub walls: Vec<TileGroup>,
    pub floors: Vec<TileGroup>,
    pub roofs: Vec<TileGroup>,
    pub lights: Vec<Light>,
}

/// The compiled world: rooms and the tilesets their groups draw from.
#[derive(Debug)]
pub struct LevelModel {
    /// Grid coordinate where the player starts.
    pub spawn_point: [i32; 2],
    pub rooms: Vec<RoomModel>,
    pub tilesets: Vec<Tileset>,
}

/// An axis-aligned rectangle in world pixels, y growing upward: `min` is its
/// top-left corner, and it reaches `size[0]` to the right and `size[1]` down,
/// edges included.
#[derive(Debug, Clone, Copy)]
pub struct Rect {
    pub min: [i32; 2],
    pub size: [u32; 2],
}

impl Rect {
    /// Whether `pos` lies in the rectangle or on its edge.
    pub open spec fn covers(&self, pos: [i32; 2]) -> bool {
        &&& self.min[0] <= pos[0] <= self.min[0] + self.size[0]
        &&& self.min[1] - self.size[1] <= pos[1] <= self.min[1]
    }

    /// Whether `pos` lies in the rectangle or on its edge.
    pub fn contains(&self, pos: [i32; 2]) -> (r: bool)
        ensures
            r == self.covers(pos),
    {
        let x = pos[0] as i64;
        let y = pos[1] as i64;
        let left = self.min[0] as i64;
        let top = self.min[1] as i64;
        left <= x && x <= left + self.size[0] as i64 && top - self.size[1] as i64 <= y && y <= top
    }
}

/// The abstract content of a tile group.
pub struct GroupView {
    pub tileset_uuid: String,
    pub cells: Map<(u32, u32), u8>,
}

impl View for TileGroup {
    type V = GroupView;

    open spec fn view(&self) -> GroupView {
        GroupView { tileset_uuid: self.tileset_uuid, cells: self.cells() }
    }
}

/// The abstract content of a tileset.
pub struct TilesetView {
    pub uuid: String,
    pub src: String,
    pub tiles: Seq<TileSource>,
    pub tilt: bool,
}

impl View for Tileset {
    type V = TilesetView;

    open spec fn view(&self) -> TilesetView {
        TilesetView { uuid: self.uuid, src: self.src, tiles: self.tiles@, tilt: self.tilt }
    }
}

/// The abstract content of a room.
pub struct RoomView {
    pub display_name: String,
    pub world_pos: [i32; 2],
    pub size: [u32; 2],
    pub walls: Seq<GroupView>,
    pub floors: Seq<GroupView>,
    pub roofs: Seq<GroupView>,
    pub lights: Seq<Light>,
}

/// The views of a list of groups.
pub open spec fn group_views(groups: Seq<TileGroup>) -> Seq<GroupView> {
    groups.map_values(|g: TileGroup| g@)
}

impl View for RoomModel {
    type V = RoomView;

    open spec fn view(&self) -> RoomView {
        RoomView {
            display_name: self.display_name,
            world_pos: self.world_pos,
            size: self.size,
            walls: group_views(self.walls@),
            floors: group_views(self.floors@),
            roofs: group_views(self.roofs@),
            lights: self.lights@,
        }
    }
}

/// The abstract content of a compiled world.
pub struct LevelView {
    pub spawn_point: [i32; 2],
    pub rooms: Seq<RoomView>,
    pub tilesets: Seq<TilesetView>,
}

impl View for LevelModel {
    type V = LevelView;

    open spec fn view(&self) -> LevelView {
        LevelView {
            spawn_point: self.spawn_point,
            rooms: self.rooms@.map_values(|r: RoomModel| r@),
            tilesets: self.tilesets@.map_values(|t: Tileset| t@),
        }
    }
}

/// Whether some group of `groups` has a tile at `(x, y)`.
pub open spec fn any_group_has(groups: Seq<TileGroup>, x: u32, y: u32) -> bool {
    exists|i: int| 0 <= i < groups.len() && #[trigger] groups[i].cells().contains_key((x, y))
}

fn groups_contain(groups: &Vec<TileGroup>, pos: [u32; 2]) -> (r: bool)
    ensures
        r == any_group_has(groups@, pos[0], pos[1]),
{
    let mut i: usize = 0;
    while i < groups.len()
        invariant
            0 <= i <= groups@.len(),
            forall|j: int| 0 <= j < i ==> !(#[trigger] groups@[j]).cells().contains_key((pos[0], pos[1])),
        decreases groups@.len() - i,
    {
        if groups[i].contains(pos) {
            return true;
        }
        i += 1;
    }
    false
}

impl RoomModel {
    /// Column of `grid_pos` relative to the room's origin.
    pub open spec fn rel_x(&self, grid_pos: [i32; 2]) -> int {
        grid_pos[0] - self.world_pos[0]
    }

    /// Row of `grid_pos` relative to the room's origin.
    pub open spec fn rel_y(&self, grid_pos: [i32; 2]) -> int {
        grid_pos[1] - self.world_pos[1]
    }

    /// Whether `grid_pos` lies in `[0, size.x) × [0, size.y)` once made relative.
    pub open spec fn in_bounds(&self, grid_pos: [i32; 2]) -> bool {
        &&& 0 <= self.rel_x(grid_pos) < self.size[0]
        &&& 0 <= self.rel_y(grid_pos) < self.size[1]
    }

    /// Whether a floor tile of this room covers `grid_pos`.
    pub open spec fn floor_at(&self, grid_pos: [i32; 2]) -> bool {
        &&& self.in_bounds(grid_pos)
        &&& any_group_has(
            self.floors@,
            self.rel_x(grid_pos) as u32,
            self.rel_y(grid_pos) as u32,
        )
    }

    /// The category at `grid_pos`: roofs first, then walls, then floors.
    pub open spec fn tile_at(&self, grid_pos: [i32; 2]) -> Option<TileType> {
        let x = self.rel_x(grid_pos) as u32;
        let y = self.rel_y(grid_pos) as u32;
        if !self.in_bounds(grid_pos) {
            None
        } else if any_group_has(self.roofs@, x, y) {
            Some(TileType::Roof)
        } else if any_group_has(self.walls@, x, y) {
            Some(TileType::Wall)
        } else if any_group_has(self.floors@, x, y) {
            Some(TileType::Floor)
        } else {
            None
        }
    }

    /// The room-relative cell of `grid_pos`, when it lies inside the room.
    fn relative(&self, grid_pos: [i32; 2]) -> (r: Option<[u32; 2]>)
        ensures
            r is Some <==> self.in_bounds(grid_pos),
            r matches Some(p) ==> p[0] == self.rel_x(grid_pos) && p[1] == self.rel_y(grid_pos),
    {
        let rx: i64 = grid_pos[0] as i64 - self.world_pos[0] as i64;
        let ry: i64 = grid_pos[1] as i64 - self.world_pos[1] as i64;
        if rx < 0 || ry < 0 || rx >= self.size[0] as i64 || ry >= self.size[1] as i64 {
            None
        } else {
            Some([rx as u32, ry as u32])
        }
    }

    /// The highest-priority category of tile at the absolute cell `grid_pos`:
    /// roof, then wall, then floor; `None` outside the room or on an empty cell.
    pub fn pos_tile(&self, grid_pos: [i32; 2]) -> (r: Option<TileType>)
        ensures
            r == self.tile_at(grid_pos),
    {
        match self.relative(grid_pos) {
            None => None,
            Some(p) => {
                if groups_contain(&self.roofs, p) {
                    Some(TileType::Roof)
                } else if groups_contain(&self.walls, p) {
                    Some(TileType::Wall)
                } else if groups_contain(&self.floors, p) {
                    Some(TileType::Floor)
                } else {
                    None
                }
            },
        }
    }

    /// Whether a floor tile of this room covers the absolute cell `grid_pos`.
    pub fn contains_floor(&self, grid_pos: [i32; 2]) -> (r: bool)
        ensures
            r == self.floor_at(grid_pos),
    {
        match self.relative(grid_pos) {
            None => false,
            Some(p) => groups_contain(&self.floors, p),
        }
    }
}

/// The category at `grid_pos` given by the first room of `rooms` that has one.
pub open spec fn first_tile_at(rooms: Seq<RoomModel>, grid_pos: [i32; 2]) -> Option<TileType>
    decreases rooms.len(),
{
    if rooms.len() == 0 {
        None
    } else {
        match rooms[0].tile_at(grid_pos) {
            Some(t) => Some(t),
            None => first_tile_at(rooms.subrange(1, rooms.len() as int), grid_pos),
        }
    }
}

impl LevelModel {
    /// Whether some room has a floor tile at `grid_pos`.
    pub open spec fn floor_at(&self, grid_pos: [i32; 2]) -> bool {
        exists|i: int| 0 <= i < self.rooms@.len() && #[trigger] self.rooms@[i].floor_at(grid_pos)
    }

    /// What the first room with a tile at `grid_pos` holds there.
    pub open spec fn tile_at(&self, grid_pos: [i32; 2]) -> Option<TileType> {
        first_tile_at(self.rooms@, grid_pos)
    }

    /// Whether the absolute cell `grid_pos` is floor in any room. Never fails:
    /// a cell outside every room is simply not floor.
    pub fn contains_floor(&self, grid_pos: [i32; 2]) -> (r: bool)
        ensures
            r == self.floor_at(grid_pos),
    {
        let mut i: usize = 0;
        while i < self.rooms.len()
            invariant
                0 <= i <= self.rooms@.len(),
                forall|j: int| 0 <= j < i ==> !(#[trigger] self.rooms@[j]).floor_at(grid_pos),
            decreases self.rooms@.len() - i,
        {
            if self.rooms[i].contains_floor(grid_pos) {
                return true;
            }
            i += 1;
        }
        false
    }

    /// The category of tile at the absolute cell `grid_pos`, from the first room
    /// that has one there. Never fails: outside every room it is `None`.
    pub fn pos_tile(&self, grid_pos: [i32; 2]) -> (r: Option<TileType>)
        ensures
            r == self.tile_at(grid_pos),
    {
        let mut i: usize = 0;
        assert(self.rooms@.subrange(0, self.rooms@.len() as int) =~= self.rooms@);
        while i < self.rooms.len()
            invariant
                0 <= i <= self.rooms@.len(),
                first_tile_at(self.rooms@, grid_pos) == first_tile_at(
                    self.rooms@.subrange(i as int, self.rooms@.len() as int),
                    grid_pos,
                ),
            decreases self.rooms@.len() - i,
        {
            let ghost rest = self.rooms@.subrange(i as int, self.rooms@.len() as int);
            assert(rest.subrange(1, rest.len() as int) =~= self.rooms@.subrange(
                i + 1,
                self.rooms@.len() as int,
            ));
            let found = self.rooms[i].pos_tile(grid_pos);
            if found.is_some() {
                return found;
            }
            i += 1;
        }
        None
    }
}

} // verus!

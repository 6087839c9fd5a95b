//! Hand-placed sprites and lights of a room, and sprite-sheet frame records.

use vstd::prelude::*;

verus! {

/// A sprite placed at a grid cell relative to its room, showing one tile.
#[derive(Debug, Clone, Copy)]
pub struct SpriteModel {
    pub pos_index: [i32; 2],
    pub tile_index: usize,
}

impl SpriteModel {
    /// A sprite at `(x, y)` showing tile 0.
    pub fn from_pos(x: i32, y: i32) -> (r: SpriteModel)
        ensures
            r.pos_index == [x, y],
            r.tile_index == 0,
    {
        Self::from(x, y, 0)
    }

    /// A sprite at `(x, y)` showing tile `index`.
    pub fn from(x: i32, y: i32, index: usize) -> (r: SpriteModel)
        ensures
            r.pos_index == [x, y],
            r.tile_index == index,
    {
        SpriteModel { pos_index: [x, y], tile_index: index }
    }

    /// The tile the sprite shows.
    pub fn sprite_index(&self) -> (r: usize)
        ensures
            r == self.tile_index,
    {
        self.tile_index
    }
}

/// A light placed at a grid cell relative to its room.
#[derive(Debug, Clone, Copy)]
pub struct LightModel {
    pub pos_index: [i32; 2],
    pub color: [u8; 4],
}

impl LightModel {
    /// An opaque white light at `(x, y)`.
    pub fn from_pos(x: i32, y: i32) -> (r: LightModel)
        ensures
            r.pos_index == [x, y],
            r.color == [255u8, 255, 255, 255],
    {
        LightModel { pos_index: [x, y], color: [255, 255, 255, 255] }
    }

    /// A light of RGBA `color` at `(x, y)`.
    pub fn from(x: i32, y: i32, color: [u8; 4]) -> (r: LightModel)
        ensures
            r.pos_index == [x, y],
            r.color == color,
    {
        LightModel { pos_index: [x, y], color }
    }
}

/// The frames listed in a sprite-sheet export.
#[derive(Debug)]
pub struct Output {
    pub frames: Vec<FrameItem>,
}

/// One named frame of a sprite sheet.
#[derive(Debug)]
pub struct FrameItem {
    pub filename: String,
    pub frame: Frame,
}

/// Where a frame lies in the sheet, in pixels.
#[derive(Debug, Clone, Copy, PartialEq, Eq, Structural)]
pub struct Frame {
    pub x: u32,
    pub y: u32,
    pub w: u32,
    pub h: u32,
}

} // verus!

//! The decoded level-editor project that the compiler reads.

use crate::text::parse_hex_color;
use vstd::prelude::*;

verus! {

/// A whole editor project.
#[derive(Debug)]
pub struct Project {
    pub json_version: String,
    pub default_grid_size: usize,
    pub defs: Definitions,
    pub levels: Vec<Level>,
}

/// The definitions shared by all levels of a project.
#[derive(Debug)]
pub struct Definitions {
    pub layers: Vec<LayerDefinition>,
    pub tilesets: Vec<TilesetDefinition>,
    pub entities: Vec<EntityDefinition>,
}

/// What a layer holds: entities or tiles.
#[derive(Debug, Clone, Copy, PartialEq, Eq, Structural)]
pub enum LayerType {
    Entities,
    Tiles,
}

/// The definition of a layer, shared by its instances in every level.
#[derive(Debug)]
pub struct LayerDefinition {
    pub uid: usize,
    pub identifier: String,
    pub type_: LayerType,
    pub grid_size: usize,
    /// The tileset whose tiles the layer places, if any.
    pub tileset_def_uid: Option<usize>,
}

/// The definition of a tileset: a source image cut into a grid of square tiles.
#[derive(Debug)]
pub struct TilesetDefinition {
    pub uid: usize,
    pub identifier: String,
    /// Number of grid columns.
    pub c_wid: u32,
    /// Number of grid rows.
    pub c_hei: u32,
    /// Width and height of one tile, in pixels.
    pub tile_grid_size: u32,
    pub rel_path: String,
    pub saved_selections: Vec<SavedSelection>,
}

/// A named selection of tiles saved in the editor.
#[derive(Debug)]
pub struct SavedSelection {
    pub ids: Vec<u8>,
    pub mode: String,
}

/// The definition of an entity and of its fields.
#[derive(Debug)]
pub struct EntityDefinition {
    pub uid: usize,
    pub identifier: String,
    pub field_defs: Vec<FieldDefinition>,
}

/// The definition of one field of an entity.
#[derive(Debug)]
pub struct FieldDefinition {
    pub identifier: String,
    pub type_: FieldType,
}

/// One level of the project: a room of the world.
#[derive(Debug)]
pub struct Level {
    pub identifier: String,
    pub px_wid: u32,
    pub px_hei: u32,
    /// Pixel offset of the level's top-left corner; y grows downward.
    pub world_x: i32,
    pub world_y: i32,
    pub layer_instances: Vec<LayerInstance>,
}

/// One layer of one level.
#[derive(Debug)]
pub struct LayerInstance {
    pub identifier: String,
    pub c_wid: usize,
    pub c_hei: usize,
    pub grid_size: usize,
    pub layer_def_uid: usize,
    pub grid_tiles: Vec<GridTile>,
    pub entity_instances: Vec<EntityInstance>,
}

/// A tile placed in a layer.
#[derive(Debug, Clone, Copy)]
pub struct GridTile {
    /// Position in the layer, in pixels, from the tile's top-left corner.
    pub px: [u32; 2],
    /// Position in the tileset image, in pixels, from the tile's top-left corner.
    pub src: [u32; 2],
}

/// An entity placed in a layer, with its field values.
#[derive(Debug)]
pub struct EntityInstance {
    pub identifier: String,
    pub def_uid: usize,
    pub px: (u32, u32),
    pub field_instances: Vec<FieldInstances>,
}

/// The value of one field of an entity.
#[derive(Debug)]
pub struct FieldInstances {
    pub identifier: String,
    pub value: FieldValue,
}

/// The kinds of field value.
#[derive(Debug, Clone, Copy, PartialEq, Eq, Structural)]
pub enum FieldType {
    Color,
    Int,
    Float,
    Bool,
}

/// A decoded field value. A float is kept as the bit pattern of an `f32`.
#[derive(Debug, Clone, Copy, PartialEq, Eq, Structural)]
pub enum FieldValue {
    Color { r: u8, g: u8, b: u8 },
    Int(usize),
    Float(u32),
    Bool(bool),
}

impl FieldValue {
    /// The kind of this value.
    pub open spec fn kind(self) -> FieldType {
        match self {
            FieldValue::Color { .. } => FieldType::Color,
            FieldValue::Int(_) => FieldType::Int,
            FieldValue::Float(_) => FieldType::Float,
            FieldValue::Bool(_) => FieldType::Bool,
        }
    }

    /// The value of a colour field written as text: the colour that `#RRGGBB`
    /// names, and black for any other text.
    pub fn color_from_text(text: &str) -> (r: FieldValue)
        ensures
            r == (match crate::text::hex_color(text@) {
                Some((r, g, b)) => FieldValue::Color { r, g, b },
                None => FieldValue::Color { r: 0, g: 0, b: 0 },
            }),
    {
        match parse_hex_color(text) {
            Some((r, g, b)) => FieldValue::Color { r, g, b },
            None => FieldValue::Color { r: 0, g: 0, b: 0 },
        }
    }
}

} // verus!

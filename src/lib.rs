//! Compiles a decoded level-editor project into a world model of rooms,
//! tile groups, lights and tilesets, and answers spatial questions about it.

pub mod classify;
pub mod compile;
pub mod editor;
pub mod layout;
pub mod model;
pub mod rooms;
pub mod sprite;
pub mod text;
pub mod tileset;

pub use classify::{classify_layer, is_tall_tileset, LayerKind};
pub use editor::{
    Definitions, EntityDefinition, EntityInstance, FieldDefinition, FieldInstances, FieldType,
    FieldValue, GridTile, LayerDefinition, LayerInstance, LayerType, Level, Project,
    SavedSelection, TilesetDefinition,
};
pub use model::{LevelModel, Light, Rect, RoomModel, TileGroup, TileSource, TileType, Tileset};
pub use text::parse_hex_color;
pub use tileset::{build_tileset, tileset_fits};
pub use compile::{compile_project, compile_with_ids, CompileError};
pub use layout::{Layout, LayoutType};
pub use sprite::{Frame, FrameItem, LightModel, Output, SpriteModel};

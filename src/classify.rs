//! Which part of a room each editor layer feeds, and which tilesets are tall.

use crate::editor::LayerType;
use crate::text::{same_text, starts_with};
use vstd::prelude::*;

verus! {

/// What a layer contributes to its room.
#[derive(Debug, Clone, Copy, PartialEq, Eq, Structural)]
pub enum LayerKind {
    Floor,
    Wall,
    Roof,
    Light,
    Ignored,
}

/// The classification table. An entity layer named exactly `Light` holds
/// lights. A tile layer whose name begins with `Floor` or `Carpet` is floor,
/// with `Wall` wall, with `Roof` roof. Every other layer is ignored.
pub open spec fn kind_of(identifier: Seq<char>, type_: LayerType) -> LayerKind {
    match type_ {
        LayerType::Entities => if identifier == "Light"@ {
            LayerKind::Light
        } else {
            LayerKind::Ignored
        },
        LayerType::Tiles => if "Floor"@.is_prefix_of(identifier) || "Carpet"@.is_prefix_of(
            identifier,
        ) {
            LayerKind::Floor
        } else if "Wall"@.is_prefix_of(identifier) {
            LayerKind::Wall
        } else if "Roof"@.is_prefix_of(identifier) {
            LayerKind::Roof
        } else {
            LayerKind::Ignored
        },
    }
}

/// Classifies a layer by its name and type.
pub fn classify_layer(identifier: &str, type_: LayerType) -> (r: LayerKind)
    ensures
        r == kind_of(identifier@, type_),
{
    match type_ {
        LayerType::Entities => if same_text(identifier, "Light") {
            LayerKind::Light
        } else {
            LayerKind::Ignored
        },
        LayerType::Tiles => if starts_with(identifier, "Floor") || starts_with(
            identifier,
            "Carpet",
        ) {
            LayerKind::Floor
        } else if starts_with(identifier, "Wall") {
            LayerKind::Wall
        } else if starts_with(identifier, "Roof") {
            LayerKind::Roof
        } else {
            LayerKind::Ignored
        },
    }
}

/// A tileset named exactly `Wall` holds tiles two grid rows tall.
pub open spec fn is_tall(identifier: Seq<char>) -> bool {
    identifier == "Wall"@
}

/// Whether the tileset named `identifier` holds tiles two grid rows tall.
pub fn is_tall_tileset(identifier: &str) -> (r: bool)
    ensures
        r == is_tall(identifier@),
{
    same_text(identifier, "Wall")
}

} // verus!

use world_generator::{classify_layer, is_tall_tileset, parse_hex_color, FieldValue, LayerKind, LayerType};

#[test]
fn hex_colors() {
    assert_eq!(parse_hex_color("#FF9A9A"), Some((255, 154, 154)));
    assert_eq!(parse_hex_color("#00ff10"), Some((0, 255, 16)));
    assert_eq!(parse_hex_color("#12345"), None);
    assert_eq!(parse_hex_color("#1234567"), None);
    assert_eq!(parse_hex_color("#12G456"), None);
    assert_eq!(parse_hex_color(""), None);
}

#[test]
fn colour_field_falls_back_to_black() {
    assert_eq!(FieldValue::color_from_text("#0A0B0C"), FieldValue::Color { r: 10, g: 11, b: 12 });
    assert_eq!(FieldValue::color_from_text("red"), FieldValue::Color { r: 0, g: 0, b: 0 });
}

#[test]
fn layer_classification_table() {
    assert_eq!(classify_layer("Light", LayerType::Entities), LayerKind::Light);
    assert_eq!(classify_layer("Lights", LayerType::Entities), LayerKind::Ignored);
    assert_eq!(classify_layer("Floor", LayerType::Entities), LayerKind::Ignored);
    assert_eq!(classify_layer("Floor", LayerType::Tiles), LayerKind::Floor);
    assert_eq!(classify_layer("Floor_Brick", LayerType::Tiles), LayerKind::Floor);
    assert_eq!(classify_layer("Carpet_Blue", LayerType::Tiles), LayerKind::Floor);
    assert_eq!(classify_layer("Wall", LayerType::Tiles), LayerKind::Wall);
    assert_eq!(classify_layer("Roof_Stone", LayerType::Tiles), LayerKind::Roof);
    assert_eq!(classify_layer("Light", LayerType::Tiles), LayerKind::Ignored);
    assert_eq!(classify_layer("Markers", LayerType::Tiles), LayerKind::Ignored);
    assert_eq!(classify_layer("", LayerType::Tiles), LayerKind::Ignored);
}

#[test]
fn tall_tilesets_are_named_wall() {
    assert!(is_tall_tileset("Wall"));
    assert!(!is_tall_tileset("Walls"));
    assert!(!is_tall_tileset("Floor"));
}

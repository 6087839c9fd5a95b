use world_generator::{Frame, LightModel, SpriteModel};

#[test]
fn sprite_from_pos_shows_tile_zero() {
    let s = SpriteModel::from_pos(-10, 12);
    assert_eq!(s.pos_index, [-10, 12]);
    assert_eq!(s.sprite_index(), 0);
}

#[test]
fn sprite_from_keeps_index() {
    let s = SpriteModel::from(5, -5, 13);
    assert_eq!(s.pos_index, [5, -5]);
    assert_eq!(s.sprite_index(), 13);
}

#[test]
fn light_models() {
    let white = LightModel::from_pos(-9, 10);
    assert_eq!(white.pos_index, [-9, 10]);
    assert_eq!(white.color, [255, 255, 255, 255]);
    let red = LightModel::from(-2, 1, [255, 154, 154, 229]);
    assert_eq!(red.pos_index, [-2, 1]);
    assert_eq!(red.color, [255, 154, 154, 229]);
}

#[test]
fn frame_fields() {
    let f = Frame { x: 628, y: 150, w: 17, h: 20 };
    assert_eq!(f, Frame { x: 628, y: 150, w: 17, h: 20 });
}

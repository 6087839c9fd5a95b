use world_generator::Rect;

#[test]
fn check_rect_contains() {
    let rect = Rect {
        min: [96, -96],
        size: [16, 16],
    };
    // not contains
    for pos in vec![
        // higher
        [95, -95],
        [96, -95],
        [104, -95],
        [112, -95],
        [113, -95],
        [120, -95],
        // lower
        [95, -113],
        [96, -113],
        [104, -113],
        [112, -113],
        [113, -113],
        [120, -113],
        // lefter
        [95, -95],
        [95, -96],
        [95, -104],
        [95, -112],
        [95, -120],
        // righter
        [113, -95],
        [113, -96],
        [113, -104],
        [113, -112],
        [113, -120],
    ] {
        assert!(!rect.contains(pos), "contains {:?}", pos);
    }
    // contains
    for pos in vec![
        [96, -96],
        [97, -96],
        [97, -97],
        [96, -97],
        [104, -104],
        [111, -112],
        [111, -111],
        [112, -111],
        [112, -112],
    ] {
        assert!(rect.contains(pos), "not contains {:?}", pos);
    }
}

#[test]
fn rect_at_extreme_coordinates() {
    let rect = Rect {
        min: [i32::MAX, i32::MIN],
        size: [u32::MAX, u32::MAX],
    };
    assert!(!rect.contains([0, 0]));
    assert!(rect.contains([i32::MAX, i32::MIN]));
}

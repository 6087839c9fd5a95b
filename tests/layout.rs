use world_generator::Layout;

const GRIDS: &[u8] = &[1, 1, 1, 1, 1, 0, 0, 1, 1, 0, 0, 1, 1, 1, 1, 1];

#[test]
fn check_new() {
    let layout = Layout::new(GRIDS, None);
    assert_eq!(layout.width(), 4);
    assert_eq!(layout.height(), 4);
}

#[test]
fn check_foreach() {
    let mut layout = Layout::new(GRIDS, None);
    let mut e_x = 0;
    let mut e_y = 0;
    while let Some((x, y, tile)) = layout.next() {
        assert_eq!(x, e_x);
        assert_eq!(y, e_y);
        if y == 0 || y == 3 || ((y == 1 || y == 2) && (x == 0 || x == 3)) {
            assert_eq!(tile, 1);
        } else {
            assert_eq!(tile, 0);
        }
        if e_x < 3 {
            e_x += 1;
        } else {
            e_x = 0;
            e_y += 1;
        }
    }
    assert_eq!(e_y, 4);
}

#[test]
fn layout_with_given_width() {
    let mut layout = Layout::new(&[1, 2, 3, 4, 5, 6], Some(3));
    assert_eq!(layout.width(), 3);
    assert_eq!(layout.height(), 2);
    assert_eq!(layout.next(), Some((0, 0, 1)));
    assert_eq!(layout.next(), Some((1, 0, 2)));
    assert_eq!(layout.next(), Some((2, 0, 3)));
    assert_eq!(layout.next(), Some((0, 1, 4)));
    assert_eq!(layout.next(), Some((1, 1, 5)));
    assert_eq!(layout.next(), Some((2, 1, 6)));
    assert_eq!(layout.next(), None);
    assert_eq!(layout.next(), None);
}

#[test]
fn layout_square_of_one() {
    let layout = Layout::new(&[7], None);
    assert_eq!(layout.width(), 1);
    assert_eq!(layout.height(), 1);
}

use ethdec::vecmath::{Rectangle, V2};

#[test]
fn v2_add() {
    assert_eq!(V2::make(0, 0) + V2::make(0, 0), V2::make(0, 0));
    assert_eq!(V2::make(0, 10) + V2::make(0, 0), V2::make(0, 10));
    assert_eq!(V2::make(10, 0) + V2::make(0, 0), V2::make(10, 0));
    assert_eq!(V2::make(0, 10) + V2::make(10, 0), V2::make(10, 10));
    assert_eq!(V2::make(1, 2) + V2::make(4, 8), V2::make(5, 10));
}

#[test]
fn rect_sides() {
    let r = Rectangle {
        pos: V2::make(1, 2),
        size: V2::make(3, 4),
    };
    assert_eq!(r.top(), 2);
    assert_eq!(r.left(), 1);
    assert_eq!(r.bottom(), 5);
    assert_eq!(r.right(), 3);
    assert_eq!(r.bottom_right(), V2::make(3, 5));
    assert_eq!(r.bottom_left(), V2::make(1, 5));
    assert_eq!(r.top_right(), V2::make(3, 2));
}

#[test]
fn v2_new_is_origin() {
    assert_eq!(V2::new(), V2::make(0, 0));
    assert_eq!(V2::new().x, 0);
    assert_eq!(V2::new().y, 0);
}

#[test]
fn v2_sub() {
    assert_eq!(V2::make(5, 10) - V2::make(4, 8), V2::make(1, 2));
    assert_eq!(V2::make(0, 0) - V2::make(1, 2), V2::make(-1, -2));
}

#[test]
fn rect_grow() {
    let r = Rectangle {
        pos: V2::make(1, 2),
        size: V2::make(3, 4),
    };
    let g = r.grow(1);
    assert_eq!(g.pos, V2::make(0, 1));
    assert_eq!(g.size, V2::make(5, 6));
    let s = g.grow(-1);
    assert_eq!(s.pos, r.pos);
    assert_eq!(s.size, r.size);
}

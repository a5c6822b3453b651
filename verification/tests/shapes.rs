use calculator::geometry::{wipe, Circle, Position, Rect, Region, Shape};

fn pos(x: i16, y: i16) -> Position {
    Position { x, y }
}

#[test]
fn rect_hit_test_is_the_closed_box() {
    let r = Rect { width: 10, height: 6, thickness: 1 };
    let at = pos(100, 200);
    // Corners of the closed box are inside.
    assert!(r.check_inside(at, pos(100, 200)));
    assert!(r.check_inside(at, pos(110, 206)));
    assert!(r.check_inside(at, pos(110, 200)));
    assert!(r.check_inside(at, pos(100, 206)));
    assert!(r.check_inside(at, pos(105, 203)));
    // One step past any edge is outside.
    assert!(!r.check_inside(at, pos(99, 203)));
    assert!(!r.check_inside(at, pos(111, 203)));
    assert!(!r.check_inside(at, pos(105, 199)));
    assert!(!r.check_inside(at, pos(105, 207)));
}

#[test]
fn circle_hit_test_is_distance_to_center() {
    let c = Circle { radius: 5, thickness: 1 };
    let at = pos(0, 0);
    // The center is (5, 5); radius 5.
    assert!(c.check_inside(at, pos(5, 5)));
    assert!(c.check_inside(at, pos(0, 5)));
    assert!(c.check_inside(at, pos(10, 5)));
    assert!(c.check_inside(at, pos(5, 0)));
    assert!(c.check_inside(at, pos(8, 9)));  // 3*3 + 4*4 = 25
    // The box corner lies outside the disc.
    assert!(!c.check_inside(at, pos(0, 0)));
    assert!(!c.check_inside(at, pos(9, 9)));
    assert!(!c.check_inside(at, pos(11, 5)));
}

#[test]
fn centers() {
    assert_eq!(Circle { radius: 7, thickness: 2 }.center(), pos(7, 7));
    assert_eq!(Rect { width: 10, height: 6, thickness: 1 }.center(), pos(5, 3));
    assert_eq!(Rect { width: 11, height: 7, thickness: 1 }.center(), pos(5, 3));
    assert_eq!(Shape::Circle(Circle { radius: 3, thickness: 1 }).center(), pos(3, 3));
}

#[test]
fn wipe_regions() {
    let at = pos(30, 40);
    let circle = Circle { radius: 9, thickness: 2 };
    assert_eq!(
        circle.wipe(at),
        Region { pos: at, width: 9, height: 9 },
    );
    let rect = Rect { width: 12, height: 34, thickness: 3 };
    assert_eq!(
        rect.wipe(at),
        Region { pos: at, width: 12, height: 34 },
    );
    assert_eq!(
        wipe(at, &rect),
        Region { pos: at, width: 12, height: 34 },
    );
    assert_eq!(
        Shape::Rect(rect).wipe(at),
        Region { pos: at, width: 12, height: 34 },
    );
}

#[test]
fn circle_pixels_form_the_annulus() {
    // radius 1, thickness 1: the outer radius is 2, the grid is 1..=3 in
    // each axis, and a point is included iff its squared distance to (2, 2)
    // is strictly between 1 and 4, which picks out the four diagonal
    // neighbours of the center.
    let c = Circle { radius: 1, thickness: 1 };
    let pixels = c.draw(pos(0, 0));
    assert_eq!(pixels.len(), 4);
    for p in [pos(1, 1), pos(1, 3), pos(3, 1), pos(3, 3)] {
        assert!(pixels.contains(&p));
    }
}

#[test]
fn circle_pixels_are_offset_by_the_position() {
    let c = Circle { radius: 1, thickness: 1 };
    let pixels = c.draw(pos(100, -50));
    assert_eq!(pixels.len(), 4);
    for p in [pos(101, -49), pos(101, -47), pos(103, -49), pos(103, -47)] {
        assert!(pixels.contains(&p));
    }
}

#[test]
fn zero_radius_zero_thickness_circle_has_no_pixels() {
    let c = Circle { radius: 0, thickness: 0 };
    assert_eq!(c.draw(pos(5, 5)).len(), 0);
}

#[test]
fn rect_pixels_form_the_border() {
    // width 2, height 2, thickness 0: the border of a 3x3 grid, eight
    // points (the center is not on any strip).
    let r = Rect { width: 2, height: 2, thickness: 0 };
    let pixels = r.draw(pos(10, 20));
    assert_eq!(pixels.len(), 8);
    for dx in 0..3i16 {
        for dy in 0..3i16 {
            let p = pos(10 + dx, 20 + dy);
            if dx == 1 && dy == 1 {
                assert!(!pixels.contains(&p));
            } else {
                assert!(pixels.contains(&p));
            }
        }
    }
}

#[test]
fn thick_rect_border_fills_the_strips() {
    // width 4, height 4, thickness 1: only the inner 2x2 block starting at
    // offset (2, 2)... the strips cover offsets 0..=1 and 3..=4 on each
    // axis, so exactly the single point (2, 2) is excluded.
    let r = Rect { width: 4, height: 4, thickness: 1 };
    let pixels = r.draw(pos(0, 0));
    assert_eq!(pixels.len(), 24);
    assert!(!pixels.contains(&pos(2, 2)));
    assert!(pixels.contains(&pos(1, 1)));
    assert!(pixels.contains(&pos(2, 1)));
    assert!(pixels.contains(&pos(2, 3)));
    assert!(pixels.contains(&pos(4, 4)));
}

#[test]
fn shape_dispatch_matches_variants() {
    let c = Circle { radius: 5, thickness: 1 };
    let s = Shape::Circle(c);
    assert!(s.check_inside(pos(0, 0), pos(5, 5)));
    assert!(!s.check_inside(pos(0, 0), pos(0, 0)));
    let r = Rect { width: 10, height: 6, thickness: 1 };
    let s = Shape::Rect(r);
    assert!(s.check_inside(pos(0, 0), pos(10, 6)));
    assert!(!s.check_inside(pos(0, 0), pos(11, 6)));
}

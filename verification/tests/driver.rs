use calculator::geometry::{update, Button, Circle, Panel, Position, Rect, Region, Shape};
use calculator::logic::{Operation, Tag};

fn at(x: i16, y: i16) -> Position {
    Position { x, y }
}

fn square_button(x: i16, y: i16, label: &[u8], tag: Tag) -> Button {
    Button {
        pos: at(x, y),
        shape: Shape::Rect(Rect { width: 10, height: 10, thickness: 1 }),
        text: label.to_vec(),
        tag,
    }
}

#[test]
fn update_collects_matching_tags_in_collection_order() {
    // Buttons at x = 0, 20, 40; the pointer at (25, 5) only hits the second.
    let buttons = vec![
        square_button(0, 0, b"7", Tag::Num(7)),
        square_button(20, 0, b"8", Tag::Num(8)),
        square_button(40, 0, b"9", Tag::Num(9)),
    ];
    let (tags, regions) = update(&buttons, at(25, 5));
    assert_eq!(tags, vec![Tag::Num(8)]);
    assert_eq!(regions.len(), 3);
}

#[test]
fn update_returns_all_overlapping_matches() {
    // Two overlapping buttons both contain (5, 5); both tags fire, in
    // collection order.
    let buttons = vec![
        square_button(0, 0, b"+", Tag::Op(Operation::Addition)),
        square_button(2, 2, b"=", Tag::Eq),
        square_button(40, 40, b"1", Tag::Num(1)),
    ];
    let (tags, _) = update(&buttons, at(5, 5));
    assert_eq!(tags, vec![Tag::Op(Operation::Addition), Tag::Eq]);
}

#[test]
fn update_with_no_hit_returns_no_tags_but_wipes_every_button() {
    let buttons = vec![
        square_button(0, 0, b"1", Tag::Num(1)),
        square_button(20, 0, b"2", Tag::Num(2)),
    ];
    let (tags, regions) = update(&buttons, at(200, 200));
    assert!(tags.is_empty());
    assert_eq!(
        regions,
        vec![
            Region { pos: at(0, 0), width: 10, height: 10 },
            Region { pos: at(20, 0), width: 10, height: 10 },
        ],
    );
}

#[test]
fn update_wipes_each_button_exactly_once_in_order() {
    let buttons = vec![
        Button {
            pos: at(0, 0),
            shape: Shape::Circle(Circle { radius: 5, thickness: 1 }),
            text: b"0".to_vec(),
            tag: Tag::Num(0),
        },
        square_button(30, 0, b"c", Tag::Clear),
    ];
    let (tags, regions) = update(&buttons, at(5, 5));
    assert_eq!(tags, vec![Tag::Num(0)]);
    assert_eq!(
        regions,
        vec![
            Region { pos: at(0, 0), width: 5, height: 5 },
            Region { pos: at(30, 0), width: 10, height: 10 },
        ],
    );
}

#[test]
fn button_check_uses_the_given_pointer_position() {
    let b = square_button(100, 100, b"x", Tag::Op(Operation::Multiplication));
    assert!(b.check(at(105, 110)));
    assert!(!b.check(at(105, 111)));
}

#[test]
fn button_draw_centers_the_label() {
    let b = square_button(100, 100, b"x", Tag::Op(Operation::Multiplication));
    let (pixels, label_at) = b.draw();
    assert_eq!(label_at, at(105, 105));
    assert!(!pixels.is_empty());
}

#[test]
fn button_wipe_covers_its_footprint() {
    let b = square_button(100, 100, b"x", Tag::Op(Operation::Multiplication));
    assert_eq!(b.wipe(), Region { pos: at(100, 100), width: 10, height: 10 });
}

#[test]
fn panel_draw_erases_before_drawing() {
    let panel = Panel {
        pos: at(40, 0),
        shape: Shape::Rect(Rect { width: 70, height: 120, thickness: 3 }),
        text: b"0".to_vec(),
    };
    let (region, pixels, label_at) = panel.draw();
    assert_eq!(region, Region { pos: at(40, 0), width: 70, height: 120 });
    assert!(!pixels.is_empty());
    assert_eq!(label_at, at(40 + 35, 60));
}

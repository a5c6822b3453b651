//! Shapes, buttons and panels: rasterization, hit testing and the redraw
//! driver.
//!
//! Geometry code never touches the windowing surface.  Each drawing
//! operation computes plain values — a set of pixels to plot, a rectangle to
//! clear, a position for a label — and the embedding program submits them to
//! the surface in one batched call each.

use vstd::prelude::*;

use crate::logic;

verus! {

/// A signed surface-space coordinate.
#[derive(Debug, Clone, Copy, PartialEq, Eq, Structural)]
pub struct Position {
    pub x: i16,
    pub y: i16,
}

/// A circular outline of a given radius and ring thickness.
#[derive(Debug, Clone, Copy, PartialEq, Eq, Structural)]
pub struct Circle {
    pub radius: i16,
    pub thickness: i16,
}

/// A hollow rectangle outline of a given size and border thickness.
#[derive(Debug, Clone, Copy, PartialEq, Eq, Structural)]
pub struct Rect {
    pub width: i16,
    pub height: i16,
    pub thickness: i16,
}

/// The closed set of shape variants.
#[derive(Debug, Clone, Copy, PartialEq, Eq, Structural)]
pub enum Shape {
    Circle(Circle),
    Rect(Rect),
}

/// An axis-aligned rectangle of the surface to clear, as the surface's
/// clear-area operation takes it.
#[derive(Debug, Clone, Copy, PartialEq, Eq, Structural)]
pub struct Region {
    pub pos: Position,
    pub width: u16,
    pub height: u16,
}

impl Circle {
    /// Radius and thickness are non-negative.
    pub open spec fn wf(self) -> bool {
        self.radius >= 0 && self.thickness >= 0
    }
}

impl Rect {
    /// Width, height and thickness are non-negative.
    pub open spec fn wf(self) -> bool {
        self.width >= 0 && self.height >= 0 && self.thickness >= 0
    }
}

impl Shape {
    pub open spec fn wf(self) -> bool {
        match self {
            Shape::Circle(c) => c.wf(),
            Shape::Rect(r) => r.wf(),
        }
    }
}

/// The click lies within the circle drawn at `pos`: its Euclidean distance
/// to the center `(pos.x + radius, pos.y + radius)` is at most `radius`,
/// stated over squared distances.
pub open spec fn circle_contains(c: Circle, pos: Position, click: Position) -> bool {
    let dx = pos.x + c.radius - click.x;
    let dy = pos.y + c.radius - click.y;
    dx * dx + dy * dy <= c.radius * c.radius
}

/// The click lies in the closed box `[pos, pos + (width, height)]`.
pub open spec fn rect_contains(r: Rect, pos: Position, click: Position) -> bool {
    pos.x <= click.x <= pos.x + r.width && pos.y <= click.y <= pos.y + r.height
}

pub open spec fn shape_contains(s: Shape, pos: Position, click: Position) -> bool {
    match s {
        Shape::Circle(c) => circle_contains(c, pos, click),
        Shape::Rect(r) => rect_contains(r, pos, click),
    }
}

/// The offset of a shape's center from its drawing position: `(radius,
/// radius)` for a circle, `(width / 2, height / 2)` for a rectangle.  A
/// label is centered on this point.
pub open spec fn center_spec(s: Shape) -> Position {
    match s {
        Shape::Circle(c) => Position { x: c.radius, y: c.radius },
        Shape::Rect(r) => Position {
            x: (r.width as int / 2) as i16,
            y: (r.height as int / 2) as i16,
        },
    }
}

/// The rectangle that erasing a shape drawn at `pos` clears: the full
/// `width x height` box for a rectangle, and for a circle a square of side
/// `radius` (an intentional approximation of its footprint).
pub open spec fn wipe_region(s: Shape, pos: Position) -> Region {
    match s {
        Shape::Circle(c) => Region { pos, width: c.radius as u16, height: c.radius as u16 },
        Shape::Rect(r) => Region { pos, width: r.width as u16, height: r.height as u16 },
    }
}

/// Compute the clear-area command that erases `rect` drawn at `pos`.
pub fn wipe(pos: Position, rect: &Rect) -> (r: Region)
    requires
        rect.wf(),
    ensures
        r == wipe_region(Shape::Rect(*rect), pos),
{
    Region { pos, width: rect.width as u16, height: rect.height as u16 }
}

impl Circle {
    /// The click hit test for a circle drawn at `pos`.
    pub fn check_inside(&self, pos: Position, check_pos: Position) -> (r: bool)
        requires
            self.wf(),
        ensures
            r == circle_contains(*self, pos, check_pos),
    {
        let dx: i64 = pos.x as i64 + self.radius as i64 - check_pos.x as i64;
        let dy: i64 = pos.y as i64 + self.radius as i64 - check_pos.y as i64;
        proof {
            assert(dx * dx <= 98304 * 98304 && dx * dx >= 0) by (nonlinear_arith)
                requires -98304 <= dx <= 98304;
            assert(dy * dy <= 98304 * 98304 && dy * dy >= 0) by (nonlinear_arith)
                requires -98304 <= dy <= 98304;
            assert(self.radius as i64 * self.radius as i64 <= 32767 * 32767) by (nonlinear_arith)
                requires 0 <= self.radius as i64 <= 32767;
        }
        dx * dx + dy * dy <= self.radius as i64 * self.radius as i64
    }
}

impl Rect {
    /// The click hit test for a rectangle drawn at `pos`.
    pub fn check_inside(&self, pos: Position, check_pos: Position) -> (r: bool)
        requires
            self.wf(),
        ensures
            r == rect_contains(*self, pos, check_pos),
    {
        pos.x as i32 <= check_pos.x as i32 && pos.x as i32 + self.width as i32 >= check_pos.x as i32
            && pos.y as i32 <= check_pos.y as i32
            && pos.y as i32 + self.height as i32 >= check_pos.y as i32
    }
}

/// The point `p` belongs to the annulus of the circle drawn at `pos`: it
/// lies on the integer grid inside the bounding box of side
/// `2 * (radius + thickness)`, and its squared distance to the box center
/// falls strictly between `radius^2` and `(radius + thickness)^2`.
pub open spec fn circle_annulus(c: Circle, pos: Position, p: Position) -> bool {
    let outer = c.radius + c.thickness;
    let dx = p.x - pos.x;
    let dy = p.y - pos.y;
    1 <= dx < 2 * outer && 1 <= dy < 2 * outer && c.radius * c.radius < (dx - outer) * (dx
        - outer) + (dy - outer) * (dy - outer) < outer * outer
}

/// The point `p` belongs to the border strips of the rectangle drawn at
/// `pos`: top and bottom strips of height `thickness` spanning the full
/// width, and left and right strips of width `thickness` spanning the full
/// height, all ranges inclusive.
pub open spec fn rect_border(r: Rect, pos: Position, p: Position) -> bool {
    let dx = p.x - pos.x;
    let dy = p.y - pos.y;
    ||| (0 <= dx <= r.width && (0 <= dy <= r.thickness || r.height - r.thickness <= dy
        <= r.height))
    ||| (0 <= dy <= r.height && (0 <= dx <= r.thickness || r.width - r.thickness <= dx
        <= r.width))
}

/// The pixel set of a shape drawn at `pos`, by variant.
pub open spec fn shape_pixel(s: Shape, pos: Position, p: Position) -> bool {
    match s {
        Shape::Circle(c) => circle_annulus(c, pos, p),
        Shape::Rect(r) => rect_border(r, pos, p),
    }
}

/// Every pixel of the circle drawn at `pos` has coordinates that fit in the
/// surface's 16-bit range, and the squared radii fit in 32 bits.
pub open spec fn circle_draw_pre(c: Circle, pos: Position) -> bool {
    &&& c.wf()
    &&& c.radius + c.thickness <= 16383
    &&& pos.x + 2 * (c.radius + c.thickness) <= i16::MAX
    &&& pos.y + 2 * (c.radius + c.thickness) <= i16::MAX
}

/// Every pixel of the rectangle drawn at `pos` has coordinates that fit in
/// the surface's 16-bit range.
pub open spec fn rect_draw_pre(r: Rect, pos: Position) -> bool {
    &&& r.wf()
    &&& pos.x - r.thickness >= i16::MIN
    &&& pos.y - r.thickness >= i16::MIN
    &&& pos.x + r.width + r.thickness <= i16::MAX
    &&& pos.y + r.height + r.thickness <= i16::MAX
}

pub open spec fn shape_draw_pre(s: Shape, pos: Position) -> bool {
    match s {
        Shape::Circle(c) => circle_draw_pre(c, pos),
        Shape::Rect(r) => rect_draw_pre(r, pos),
    }
}

/// Pushing a point that is not yet present keeps a pixel list free of
/// duplicates, and extends its membership by exactly that point.
proof fn lemma_pixels_push(prev: Seq<Position>, q: Position)
    requires
        prev.no_duplicates(),
        !prev.contains(q),
    ensures
        prev.push(q).no_duplicates(),
        forall|p: Position| #[trigger] prev.push(q).contains(p) <==> (p == q || prev.contains(p)),
{
    broadcast use vstd::seq_lib::lemma_seq_contains_after_push;

    assert forall|i: int, j: int|
        (0 <= i < prev.push(q).len() && 0 <= j < prev.push(q).len() && i != j) implies prev.push(
        q,
    )[i] != prev.push(q)[j] by {
        if i < prev.len() && j == prev.len() {
            assert(prev.contains(prev[i]));
        } else if j < prev.len() && i == prev.len() {
            assert(prev.contains(prev[j]));
        }
    }
}

impl Circle {
    /// Rasterize the circle's outline at `pos`: the set of grid points whose
    /// squared distance to the bounding-box center falls strictly between
    /// the inner and outer squared radius, each point listed once, ready for
    /// one batched draw call.
    pub fn draw(&self, pos: Position) -> (r: Vec<Position>)
        requires
            circle_draw_pre(*self, pos),
        ensures
            forall|p: Position| r@.contains(p) <==> circle_annulus(*self, pos, p),
            r@.no_duplicates(),
    {
        broadcast use vstd::seq_lib::lemma_seq_contains_after_push;

        let mut pixels: Vec<Position> = Vec::new();
        let outer: i32 = self.radius as i32 + self.thickness as i32;
        if outer == 0 {
            return pixels;
        }
        proof {
            assert(outer * outer <= 16383 * 16383 && outer * outer >= 0) by (nonlinear_arith)
                requires
                    0 <= outer <= 16383,
            ;
            assert(self.radius as i32 * self.radius as i32 <= outer * outer) by (nonlinear_arith)
                requires
                    0 <= self.radius as i32 <= outer,
            ;
        }
        let in_sq: i32 = self.radius as i32 * self.radius as i32;
        let out_sq: i32 = outer * outer;
        let mut x: i32 = 1;
        while x < 2 * outer
            invariant
                circle_draw_pre(*self, pos),
                outer == self.radius + self.thickness,
                1 <= outer <= 16383,
                in_sq == self.radius * self.radius,
                out_sq == outer * outer,
                1 <= x <= 2 * outer,
                pixels@.no_duplicates(),
                forall|p: Position|
                    pixels@.contains(p) <==> circle_annulus(*self, pos, p) && p.x - pos.x < x,
            decreases 2 * outer - x,
        {
            let mut y: i32 = 1;
            while y < 2 * outer
                invariant
                    circle_draw_pre(*self, pos),
                    outer == self.radius + self.thickness,
                    1 <= outer <= 16383,
                    in_sq == self.radius * self.radius,
                    out_sq == outer * outer,
                    1 <= x < 2 * outer,
                    1 <= y <= 2 * outer,
                    pixels@.no_duplicates(),
                    forall|p: Position|
                        pixels@.contains(p) <==> circle_annulus(*self, pos, p) && (p.x - pos.x < x
                            || (p.x - pos.x == x && p.y - pos.y < y)),
                decreases 2 * outer - y,
            {
                proof {
                    assert((x - outer) * (x - outer) + (y - outer) * (y - outer) <= 2 * 16383
                        * 16383 && (x - outer) * (x - outer) >= 0 && (y - outer) * (y - outer)
                        >= 0) by (nonlinear_arith)
                        requires
                            -16383 <= x - outer <= 16383,
                            -16383 <= y - outer <= 16383,
                    ;
                }
                let distance: i32 = (x - outer) * (x - outer) + (y - outer) * (y - outer);
                if distance > in_sq && distance < out_sq {
                    let q = Position { x: (pos.x as i32 + x) as i16, y: (pos.y as i32 + y) as i16 };
                    assert(q.x == pos.x + x && q.y == pos.y + y);
                    assert(circle_annulus(*self, pos, q));
                    assert(!pixels@.contains(q));
                    let ghost prev = pixels@;
                    pixels.push(q);
                    proof {
                        lemma_pixels_push(prev, q);
                        assert forall|p: Position|
                            pixels@.contains(p) <==> circle_annulus(*self, pos, p) && (p.x - pos.x
                                < x || (p.x - pos.x == x && p.y - pos.y < y + 1)) by {
                            assert(prev.push(q).contains(p) <==> (p == q || prev.contains(p)));
                            if circle_annulus(*self, pos, p) && p.x - pos.x == x && p.y - pos.y
                                == y {
                                assert(p.x == q.x && p.y == q.y);
                                assert(p == q);
                            }
                        }
                    }
                } else {
                    assert forall|p: Position|
                        pixels@.contains(p) <==> circle_annulus(*self, pos, p) && (p.x - pos.x < x
                            || (p.x - pos.x == x && p.y - pos.y < y + 1)) by {
                        if circle_annulus(*self, pos, p) && p.x - pos.x == x && p.y - pos.y == y {
                            assert(false);
                        }
                    }
                }
                y = y + 1;
            }
            x = x + 1;
        }
        pixels
    }

    /// The clear-area command that erases the circle's footprint at `pos`:
    /// a square of side `radius` (an intentional approximation).
    pub fn wipe(&self, pos: Position) -> (r: Region)
        requires
            self.wf(),
        ensures
            r == wipe_region(Shape::Circle(*self), pos),
    {
        let area = Rect { width: self.radius, height: self.radius, thickness: 0 };
        wipe(pos, &area)
    }

    /// The center offset of the circle: `(radius, radius)`.
    pub fn center(&self) -> (r: Position)
        ensures
            r == (Position { x: self.radius, y: self.radius }),
    {
        Position { x: self.radius, y: self.radius }
    }
}

impl Rect {
    /// Rasterize the rectangle's outline at `pos`: the four border strips,
    /// each grid point listed once, ready for one batched draw call.
    pub fn draw(&self, pos: Position) -> (r: Vec<Position>)
        requires
            rect_draw_pre(*self, pos),
        ensures
            forall|p: Position| r@.contains(p) <==> rect_border(*self, pos, p),
            r@.no_duplicates(),
    {
        broadcast use vstd::seq_lib::lemma_seq_contains_after_push;

        let mut pixels: Vec<Position> = Vec::new();
        let w: i32 = self.width as i32;
        let h: i32 = self.height as i32;
        let t: i32 = self.thickness as i32;
        let lo_x: i32 = if w - t < 0 { w - t } else { 0 };
        let hi_x: i32 = if w > t { w } else { t };
        let lo_y: i32 = if h - t < 0 { h - t } else { 0 };
        let hi_y: i32 = if h > t { h } else { t };
        let mut dx: i32 = lo_x;
        while dx <= hi_x
            invariant
                rect_draw_pre(*self, pos),
                w == self.width && h == self.height && t == self.thickness,
                lo_x == if w - t < 0 { w - t } else { 0 },
                hi_x == if w > t { w } else { t },
                lo_y == if h - t < 0 { h - t } else { 0 },
                hi_y == if h > t { h } else { t },
                lo_x <= dx <= hi_x + 1,
                pixels@.no_duplicates(),
                forall|p: Position|
                    pixels@.contains(p) <==> rect_border(*self, pos, p) && p.x - pos.x < dx,
            decreases hi_x + 1 - dx,
        {
            let mut dy: i32 = lo_y;
            while dy <= hi_y
                invariant
                    rect_draw_pre(*self, pos),
                    w == self.width && h == self.height && t == self.thickness,
                    lo_x == if w - t < 0 { w - t } else { 0 },
                    hi_x == if w > t { w } else { t },
                    lo_y == if h - t < 0 { h - t } else { 0 },
                    hi_y == if h > t { h } else { t },
                    lo_x <= dx <= hi_x,
                    lo_y <= dy <= hi_y + 1,
                    pixels@.no_duplicates(),
                    forall|p: Position|
                        pixels@.contains(p) <==> rect_border(*self, pos, p) && (p.x - pos.x < dx
                            || (p.x - pos.x == dx && p.y - pos.y < dy)),
                decreases hi_y + 1 - dy,
            {
                let on_border = (0 <= dx && dx <= w && ((0 <= dy && dy <= t) || (h - t <= dy && dy
                    <= h))) || (0 <= dy && dy <= h && ((0 <= dx && dx <= t) || (w - t <= dx && dx
                    <= w)));
                if on_border {
                    let q = Position {
                        x: (pos.x as i32 + dx) as i16,
                        y: (pos.y as i32 + dy) as i16,
                    };
                    assert(q.x == pos.x + dx && q.y == pos.y + dy);
                    assert(rect_border(*self, pos, q));
                    assert(!pixels@.contains(q));
                    let ghost prev = pixels@;
                    pixels.push(q);
                    proof {
                        lemma_pixels_push(prev, q);
                        assert forall|p: Position|
                            pixels@.contains(p) <==> rect_border(*self, pos, p) && (p.x - pos.x
                                < dx || (p.x - pos.x == dx && p.y - pos.y < dy + 1)) by {
                            assert(prev.push(q).contains(p) <==> (p == q || prev.contains(p)));
                            if rect_border(*self, pos, p) && p.x - pos.x == dx && p.y - pos.y
                                == dy {
                                assert(p.x == q.x && p.y == q.y);
                                assert(p == q);
                            }
                        }
                    }
                } else {
                    assert forall|p: Position|
                        pixels@.contains(p) <==> rect_border(*self, pos, p) && (p.x - pos.x < dx
                            || (p.x - pos.x == dx && p.y - pos.y < dy + 1)) by {
                        if rect_border(*self, pos, p) && p.x - pos.x == dx && p.y - pos.y == dy {
                            assert(false);
                        }
                    }
                }
                dy = dy + 1;
            }
            dx = dx + 1;
        }
        pixels
    }

    /// The clear-area command that erases the rectangle's footprint at
    /// `pos`.
    pub fn wipe(&self, pos: Position) -> (r: Region)
        requires
            self.wf(),
        ensures
            r == wipe_region(Shape::Rect(*self), pos),
    {
        wipe(pos, self)
    }

    /// The center offset of the rectangle: `(width / 2, height / 2)`.
    pub fn center(&self) -> (r: Position)
        requires
            self.wf(),
        ensures
            r == center_spec(Shape::Rect(*self)),
    {
        Position { x: ((self.width as u16) / 2) as i16, y: ((self.height as u16) / 2) as i16 }
    }
}

impl Shape {
    /// Rasterize the shape's outline at `pos`, dispatched by variant.
    pub fn draw(&self, pos: Position) -> (r: Vec<Position>)
        requires
            shape_draw_pre(*self, pos),
        ensures
            forall|p: Position| r@.contains(p) <==> shape_pixel(*self, pos, p),
            r@.no_duplicates(),
    {
        match self {
            Shape::Circle(inner) => inner.draw(pos),
            Shape::Rect(inner) => inner.draw(pos),
        }
    }

    /// The clear-area command that erases the shape's footprint at `pos`.
    pub fn wipe(&self, pos: Position) -> (r: Region)
        requires
            self.wf(),
        ensures
            r == wipe_region(*self, pos),
    {
        match self {
            Shape::Circle(inner) => inner.wipe(pos),
            Shape::Rect(inner) => inner.wipe(pos),
        }
    }

    /// The shape's center offset, dispatched by variant.
    pub fn center(&self) -> (r: Position)
        requires
            self.wf(),
        ensures
            r == center_spec(*self),
    {
        match self {
            Shape::Circle(inner) => inner.center(),
            Shape::Rect(inner) => inner.center(),
        }
    }
}

impl Shape {
    /// The click hit test, dispatched by variant.
    pub fn check_inside(&self, pos: Position, check_pos: Position) -> (r: bool)
        requires
            self.wf(),
        ensures
            r == shape_contains(*self, pos, check_pos),
    {
        match self {
            Shape::Circle(inner) => inner.check_inside(pos, check_pos),
            Shape::Rect(inner) => inner.check_inside(pos, check_pos),
        }
    }
}

/// The position a shape's label is rendered at: the drawing position offset
/// by the shape's center.
pub open spec fn label_pos(s: Shape, pos: Position) -> Position {
    Position {
        x: (pos.x + center_spec(s).x) as i16,
        y: (pos.y + center_spec(s).y) as i16,
    }
}

/// The label position fits in the surface's 16-bit range.
pub open spec fn label_pre(s: Shape, pos: Position) -> bool {
    pos.x + center_spec(s).x <= i16::MAX && pos.y + center_spec(s).y <= i16::MAX
}

/// A clickable widget: a shape at a fixed position, a label, and the action
/// tag it fires.  Buttons are laid out once and never change shape, tag or
/// position at runtime; only their image on the surface changes.
pub struct Button {
    pub pos: Position,
    pub shape: Shape,
    pub text: Vec<u8>,
    pub tag: logic::Tag,
}

impl Button {
    /// Compute one drawing of the button: the shape's pixel set and the
    /// position its label is centered on.
    pub fn draw(&self) -> (r: (Vec<Position>, Position))
        requires
            shape_draw_pre(self.shape, self.pos),
            label_pre(self.shape, self.pos),
        ensures
            forall|p: Position| r.0@.contains(p) <==> shape_pixel(self.shape, self.pos, p),
            r.0@.no_duplicates(),
            r.1 == label_pos(self.shape, self.pos),
    {
        let pixels = self.shape.draw(self.pos);
        let center = self.shape.center();
        let pos = Position { x: self.pos.x + center.x, y: self.pos.y + center.y };
        (pixels, pos)
    }

    /// The clear-area command that erases the button's footprint.
    pub fn wipe(&self) -> (r: Region)
        requires
            self.shape.wf(),
        ensures
            r == wipe_region(self.shape, self.pos),
    {
        self.shape.wipe(self.pos)
    }

    /// Whether the pointer, as the caller queried it from the surface, lies
    /// inside the button.
    pub fn check(&self, pointer: Position) -> (r: bool)
        requires
            self.shape.wf(),
        ensures
            r == shape_contains(self.shape, self.pos, pointer),
    {
        self.shape.check_inside(self.pos, pointer)
    }
}

/// An output widget: a shape at a fixed position with a mutable label bound
/// to the backend's state, redrawn erase-then-draw each cycle.
pub struct Panel {
    pub pos: Position,
    pub shape: Shape,
    pub text: Vec<u8>,
}

impl Panel {
    /// Compute one redraw of the panel, in the order the commands must be
    /// submitted: first the clear command that erases the old image (so no
    /// stale text remains), then the shape's pixel set, then the position
    /// the label is centered on.
    pub fn draw(&self) -> (r: (Region, Vec<Position>, Position))
        requires
            shape_draw_pre(self.shape, self.pos),
            label_pre(self.shape, self.pos),
        ensures
            r.0 == wipe_region(self.shape, self.pos),
            forall|p: Position| r.1@.contains(p) <==> shape_pixel(self.shape, self.pos, p),
            r.1@.no_duplicates(),
            r.2 == label_pos(self.shape, self.pos),
    {
        let region = self.wipe();
        let pixels = self.shape.draw(self.pos);
        let center = self.shape.center();
        let pos = Position { x: self.pos.x + center.x, y: self.pos.y + center.y };
        (region, pixels, pos)
    }

    /// The clear-area command that erases the panel's footprint.
    pub fn wipe(&self) -> (r: Region)
        requires
            self.shape.wf(),
        ensures
            r == wipe_region(self.shape, self.pos),
    {
        self.shape.wipe(self.pos)
    }

    /// Rewrite the label from the backend's state: the decimal rendering of
    /// the current accumulator.
    pub fn update(&mut self, backend: &logic::Backend)
        ensures
            final(self).text@ == logic::dec_bytes(backend.num2 as int),
            final(self).pos == old(self).pos,
            final(self).shape == old(self).shape,
    {
        self.text = logic::to_decimal(backend.num2);
    }

    /// Surface a recoverable arithmetic failure as the panel's label.
    pub fn show_error(&mut self, err: &logic::ArithmeticError)
        ensures
            final(self).text@ == logic::error_bytes(*err),
            final(self).pos == old(self).pos,
            final(self).shape == old(self).shape,
    {
        self.text = err.label();
    }
}

/// The tags of the buttons the pointer lies in, in collection order.
pub open spec fn matched_tags(buttons: Seq<Button>, pointer: Position) -> Seq<logic::Tag>
    decreases buttons.len(),
{
    if buttons.len() == 0 {
        Seq::empty()
    } else {
        let rest = matched_tags(buttons.drop_last(), pointer);
        let b = buttons.last();
        if shape_contains(b.shape, b.pos, pointer) {
            rest.push(b.tag)
        } else {
            rest
        }
    }
}

/// One redraw-driver pass for the given pointer position: hit-test every
/// button in collection order, collect the tag of each button the pointer
/// lies in (all matches, duplicates possible when hit regions overlap), and
/// emit one clear command per button, in the same order, so that each button
/// is erased exactly once for the next frame.  The caller dispatches the
/// returned tags to the backend in the returned order.
pub fn update(buttons: &Vec<Button>, pointer: Position) -> (r: (Vec<logic::Tag>, Vec<Region>))
    requires
        forall|i: int| 0 <= i < buttons@.len() ==> (#[trigger] buttons@[i]).shape.wf(),
    ensures
        r.0@ == matched_tags(buttons@, pointer),
        r.1@.len() == buttons@.len(),
        forall|i: int|
            0 <= i < buttons@.len() ==> r.1@[i] == wipe_region(
                buttons@[i].shape,
                buttons@[i].pos,
            ),
{
    let mut tags: Vec<logic::Tag> = Vec::new();
    let mut regions: Vec<Region> = Vec::new();
    let mut i: usize = 0;
    while i < buttons.len()
        invariant
            i <= buttons@.len(),
            forall|k: int| 0 <= k < buttons@.len() ==> (#[trigger] buttons@[k]).shape.wf(),
            tags@ == matched_tags(buttons@.subrange(0, i as int), pointer),
            regions@.len() == i,
            forall|j: int|
                0 <= j < i ==> regions@[j] == wipe_region(buttons@[j].shape, buttons@[j].pos),
        decreases buttons@.len() - i,
    {
        let b = &buttons[i];
        if b.check(pointer) {
            tags.push(b.tag);
        }
        regions.push(b.wipe());
        proof {
            let done = buttons@.subrange(0, i + 1);
            assert(done.drop_last() =~= buttons@.subrange(0, i as int));
            assert(done.last() == buttons@[i as int]);
        }
        i = i + 1;
    }
    proof {
        assert(buttons@.subrange(0, buttons@.len() as int) =~= buttons@);
    }
    (tags, regions)
}

} // verus!

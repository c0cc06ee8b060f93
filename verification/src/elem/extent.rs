//! The extent of a box: a corner and two dimensions, shared by the shapes
//! that are boxes.

use crate::codec::{as_ints, numbers_text, push_numbers};
use crate::coord::{dist_sq, is_near, near, within, Coordinate, HIT_TOLERANCE, WORLD_MAX};
use crate::decimal::NUMBER_MAX;
use crate::geometry::{box_intersects, in_box};
use vstd::prelude::*;
use vstd::string::*;

verus! {

/// One axis of a box: where it starts and how far it reaches. A negative
/// reach is read backwards.
pub struct Span {
    pub start: int,
    pub reach: int,
}

/// The span after its starting edge was dragged to `p`: the far edge stays,
/// unless `p` passed it, in which case both edges lie on `p`.
pub open spec fn drag_start(s: Span, p: int) -> Span {
    if s.start + s.reach - p < 0 {
        Span { start: p, reach: 0 }
    } else {
        Span { start: p, reach: s.start + s.reach - p }
    }
}

/// The span after its far edge was dragged to `p`: the starting edge stays,
/// unless `p` passed it, in which case both edges lie on `p`.
pub open spec fn drag_end(s: Span, p: int) -> Span {
    if p - s.start < 0 {
        Span { start: p, reach: 0 }
    } else {
        Span { start: s.start, reach: p - s.start }
    }
}

/// A span that no edge of was dragged: kept, but one that reaches backwards
/// collapses onto `p`.
pub open spec fn drag_none(s: Span, p: int) -> Span {
    if s.reach < 0 {
        Span { start: p, reach: 0 }
    } else {
        s
    }
}

/// The four corners of the box with the given spans: top-left, top-right,
/// bottom-right, bottom-left, whichever way the spans reach.
pub open spec fn box_corners(h: Span, v: Span) -> Seq<Coordinate> {
    let x0 = if h.reach < 0 { h.start + h.reach } else { h.start };
    let x1 = if h.reach < 0 { h.start } else { h.start + h.reach };
    let y0 = if v.reach < 0 { v.start + v.reach } else { v.start };
    let y1 = if v.reach < 0 { v.start } else { v.start + v.reach };
    seq![
        Coordinate { x: x0 as i64, y: y0 as i64 },
        Coordinate { x: x1 as i64, y: y0 as i64 },
        Coordinate { x: x1 as i64, y: y1 as i64 },
        Coordinate { x: x0 as i64, y: y1 as i64 },
    ]
}

/// Whether both edges of a span lie in the world.
pub open spec fn span_in_world(s: Span) -> bool {
    within(s.start, WORLD_MAX as int) && within(s.start + s.reach, WORLD_MAX as int)
}

/// The spans of a box after corner `corner` was dragged to `(px, py)`.
/// Corners count as in `box_corners`; any other number drags nothing.
pub open spec fn drag_corner(h: Span, v: Span, px: int, py: int, corner: int) -> (Span, Span) {
    if corner == 0 {
        (drag_start(h, px), drag_start(v, py))
    } else if corner == 1 {
        (drag_end(h, px), drag_start(v, py))
    } else if corner == 2 {
        (drag_end(h, px), drag_end(v, py))
    } else if corner == 3 {
        (drag_start(h, px), drag_end(v, py))
    } else {
        (drag_none(h, px), drag_none(v, py))
    }
}

/// Whether a point touches the box with the given spans: it lies in the box
/// or closer than the hit tolerance to one of the corners.
pub open spec fn box_hit(h: Span, v: Span, p: Coordinate) -> bool {
    let c = box_corners(h, v);
    in_box(c[0], c[2], p) || near(c[0], p) || near(c[1], p) || near(c[2], p) || near(c[3], p)
}

/// A corner and two dimensions. A negative dimension is read backwards from
/// the corner.
#[derive(Clone, Copy, Debug, PartialEq, Eq, Structural)]
pub struct Extent {
    pub lt_coord: Coordinate,
    pub width: i64,
    pub height: i64,
}

/// The extent with the given spans.
pub open spec fn extent_of(h: Span, v: Span) -> Extent {
    Extent {
        lt_coord: Coordinate { x: h.start as i64, y: v.start as i64 },
        width: h.reach as i64,
        height: v.reach as i64,
    }
}

impl Extent {
    /// The horizontal span.
    pub open spec fn h(self) -> Span {
        Span { start: self.lt_coord.x as int, reach: self.width as int }
    }

    /// The vertical span.
    pub open spec fn v(self) -> Span {
        Span { start: self.lt_coord.y as int, reach: self.height as int }
    }

    /// Every corner lies in the world.
    pub open spec fn wf(self) -> bool {
        span_in_world(self.h()) && span_in_world(self.v())
    }

    /// The corners: top-left, top-right, bottom-right, bottom-left.
    pub open spec fn vertices(self) -> Seq<Coordinate> {
        box_corners(self.h(), self.v())
    }

    /// The extent of the box that has the two points as opposite corners:
    /// measured from its top-left corner, with no negative dimension.
    pub open spec fn between(from_coord: Coordinate, end_coord: Coordinate) -> Extent {
        Extent {
            lt_coord: Coordinate {
                x: if from_coord.x > end_coord.x { end_coord.x } else { from_coord.x },
                y: if from_coord.y > end_coord.y { end_coord.y } else { from_coord.y },
            },
            width: (if from_coord.x > end_coord.x {
                from_coord.x - end_coord.x
            } else {
                end_coord.x - from_coord.x
            }) as i64,
            height: (if from_coord.y > end_coord.y {
                from_coord.y - end_coord.y
            } else {
                end_coord.y - from_coord.y
            }) as i64,
        }
    }

    /// The extent shifted by `(dx, dy)`.
    pub open spec fn shifted(self, dx: int, dy: int) -> Extent {
        Extent {
            lt_coord: Coordinate {
                x: (self.lt_coord.x + dx) as i64,
                y: (self.lt_coord.y + dy) as i64,
            },
            ..self
        }
    }

    /// Whether the extent, shifted by `(dx, dy)`, still has every corner in
    /// the world.
    pub open spec fn fits_shifted(self, dx: int, dy: int) -> bool {
        &&& span_in_world(Span { start: self.lt_coord.x + dx, reach: self.width as int })
        &&& span_in_world(Span { start: self.lt_coord.y + dy, reach: self.height as int })
    }

    /// The extent after a move by `end_coord - from_coord`: shifted, or left
    /// where it is if the shift would carry a corner out of the world.
    pub open spec fn moved(self, from_coord: Coordinate, end_coord: Coordinate) -> Extent {
        let dx = end_coord.x - from_coord.x;
        let dy = end_coord.y - from_coord.y;
        if self.fits_shifted(dx, dy) {
            self.shifted(dx, dy)
        } else {
            self
        }
    }

    /// The extent after corner `drag_vertex` was dragged to `end_coord`.
    pub open spec fn resized(self, end_coord: Coordinate, drag_vertex: int) -> Extent {
        let s = drag_corner(
            self.h(),
            self.v(),
            end_coord.x as int,
            end_coord.y as int,
            drag_vertex,
        );
        extent_of(s.0, s.1)
    }

    /// Whether a point touches the box.
    pub open spec fn hit(self, p: Coordinate) -> bool {
        box_hit(self.h(), self.v(), p)
    }

    /// The numbers of the extent: the corner, the width and the height.
    pub open spec fn numbers(self) -> Seq<int> {
        seq![self.lt_coord.x as int, self.lt_coord.y as int, self.width as int, self.height as int]
    }

    /// The text of the extent: its numbers between commas.
    pub open spec fn fields(self) -> Seq<char> {
        numbers_text(self.numbers())
    }

    /// The extent that four numbers give, if every corner of it lies in the
    /// world.
    pub open spec fn of_numbers(v: Seq<int>) -> Option<Extent> {
        let e = Extent {
            lt_coord: Coordinate { x: v[0] as i64, y: v[1] as i64 },
            width: v[2] as i64,
            height: v[3] as i64,
        };
        if v.len() == 4 && span_in_world(Span { start: v[0], reach: v[2] }) && span_in_world(
            Span { start: v[1], reach: v[3] },
        ) {
            Some(e)
        } else {
            None
        }
    }

    /// Whether every corner lies in the world.
    pub fn is_valid(&self) -> (r: bool)
        ensures
            r == self.wf(),
    {
        let x: i64 = self.lt_coord.x;
        let y: i64 = self.lt_coord.y;
        let w: i64 = self.width;
        let h: i64 = self.height;
        -WORLD_MAX <= x && x <= WORLD_MAX && -2 * WORLD_MAX <= w && w <= 2 * WORLD_MAX
            && -WORLD_MAX <= x + w && x + w <= WORLD_MAX && -WORLD_MAX <= y && y <= WORLD_MAX && -2
            * WORLD_MAX <= h && h <= 2 * WORLD_MAX && -WORLD_MAX <= y + h && y + h <= WORLD_MAX
    }

    /// Appends the text of the extent to `out`.
    pub fn export_to(&self, out: &mut String)
        ensures
            final(out)@ == old(out)@ + self.fields(),
    {
        let values = vec![self.lt_coord.x, self.lt_coord.y, self.width, self.height];
        assert(as_ints(values@) =~= self.numbers());
        push_numbers(out, &values);
    }

    /// The extent that the numbers of `v` give.
    pub fn from_numbers(v: &Vec<i64>) -> (r: Option<Extent>)
        requires
            forall|i: int| 0 <= i < v@.len() ==> -NUMBER_MAX <= #[trigger] v@[i] <= NUMBER_MAX,
        ensures
            r == Extent::of_numbers(as_ints(v@)),
            r matches Some(e) ==> e.wf(),
    {
        if v.len() != 4 {
            return None;
        }
        let x: i64 = v[0];
        let y: i64 = v[1];
        let w: i64 = v[2];
        let h: i64 = v[3];
        if -WORLD_MAX <= x && x <= WORLD_MAX && -WORLD_MAX <= x + w && x + w <= WORLD_MAX
            && -WORLD_MAX <= y && y <= WORLD_MAX && -WORLD_MAX <= y + h && y + h <= WORLD_MAX {
            Some(Extent { lt_coord: Coordinate { x, y }, width: w, height: h })
        } else {
            None
        }
    }

    pub fn get_vertex(&self) -> (r: Vec<Coordinate>)
        requires
            self.wf(),
        ensures
            r@ == self.vertices(),
    {
        let mut x0: i64 = self.lt_coord.x;
        let mut x1: i64 = self.lt_coord.x + self.width;
        let mut y0: i64 = self.lt_coord.y;
        let mut y1: i64 = self.lt_coord.y + self.height;
        if x0 > x1 {
            let t: i64 = x0;
            x0 = x1;
            x1 = t;
        }
        if y0 > y1 {
            let t: i64 = y0;
            y0 = y1;
            y1 = t;
        }
        let r = vec![
            Coordinate { x: x0, y: y0 },
            Coordinate { x: x1, y: y0 },
            Coordinate { x: x1, y: y1 },
            Coordinate { x: x0, y: y1 },
        ];
        assert(r@ =~= self.vertices());
        r
    }

    pub fn creating(from_coord: Coordinate, end_coord: Coordinate) -> (r: Extent)
        requires
            from_coord.in_world(),
            end_coord.in_world(),
        ensures
            r == Extent::between(from_coord, end_coord),
            r.wf(),
    {
        let mut tfrom = from_coord;
        let mut tend = end_coord;
        if tfrom.x > tend.x {
            let t: i64 = tfrom.x;
            tfrom.x = tend.x;
            tend.x = t;
        }
        if tfrom.y > tend.y {
            let t: i64 = tfrom.y;
            tfrom.y = tend.y;
            tend.y = t;
        }
        Extent { lt_coord: tfrom, width: tend.x - tfrom.x, height: tend.y - tfrom.y }
    }

    pub fn edit_moving(&self, from_coord: Coordinate, end_coord: Coordinate) -> (r: Extent)
        requires
            self.wf(),
            from_coord.in_world(),
            end_coord.in_world(),
        ensures
            r == self.moved(from_coord, end_coord),
            r.wf(),
    {
        let x_dif: i64 = end_coord.x - from_coord.x;
        let y_dif: i64 = end_coord.y - from_coord.y;
        let x: i64 = self.lt_coord.x + x_dif;
        let y: i64 = self.lt_coord.y + y_dif;
        if -WORLD_MAX <= x && x <= WORLD_MAX && -WORLD_MAX <= x + self.width && x + self.width
            <= WORLD_MAX && -WORLD_MAX <= y && y <= WORLD_MAX && -WORLD_MAX <= y + self.height && y
            + self.height <= WORLD_MAX {
            Extent { lt_coord: Coordinate { x, y }, width: self.width, height: self.height }
        } else {
            *self
        }
    }

    pub fn edit_resizing(&self, end_coord: Coordinate, drag_vertex: i32) -> (r: Extent)
        requires
            self.wf(),
            end_coord.in_world(),
        ensures
            r == self.resized(end_coord, drag_vertex as int),
            r.wf(),
    {
        let mut e = *self;
        if drag_vertex == 0 {
            e.width = e.width + (e.lt_coord.x - end_coord.x);
            e.height = e.height + (e.lt_coord.y - end_coord.y);
            e.lt_coord = end_coord;
        } else if drag_vertex == 1 {
            e.width = end_coord.x - e.lt_coord.x;
            e.height = e.height + (e.lt_coord.y - end_coord.y);
            e.lt_coord.y = end_coord.y;
        } else if drag_vertex == 2 {
            e.width = end_coord.x - e.lt_coord.x;
            e.height = end_coord.y - e.lt_coord.y;
        } else if drag_vertex == 3 {
            e.height = end_coord.y - e.lt_coord.y;
            e.width = e.width + (e.lt_coord.x - end_coord.x);
            e.lt_coord.x = end_coord.x;
        }
        if e.width < 0 {
            e.width = 0;
            e.lt_coord.x = end_coord.x;
        }
        if e.height < 0 {
            e.height = 0;
            e.lt_coord.y = end_coord.y;
        }
        e
    }

    pub fn hover_condition(&self, mouse_point: Coordinate) -> (r: bool)
        requires
            self.wf(),
            mouse_point.in_world(),
        ensures
            r == self.hit(mouse_point),
    {
        let vertex = self.get_vertex();
        box_intersects(vertex[0], vertex[2], mouse_point) || is_near(vertex[0], mouse_point)
            || is_near(vertex[1], mouse_point) || is_near(vertex[2], mouse_point) || is_near(
            vertex[3],
            mouse_point,
        )
    }
}

/// The centre of a box, rounded toward its measuring corner.
pub open spec fn centre(e: Extent) -> Coordinate {
    Coordinate { x: (e.lt_coord.x + e.width / 2) as i64, y: (e.lt_coord.y + e.height / 2) as i64 }
}

/// Whether `p` is farther from every corner of the box than its width and
/// height together.
pub open spec fn far_from(e: Extent, p: Coordinate) -> bool {
    forall|i: int|
        0 <= i < 4 ==> dist_sq(p, #[trigger] e.vertices()[i]) > (e.width + e.height) * (e.width
            + e.height)
}

/// A box that was just spanned between two points of the world, as a new
/// rectangle or text box is, is touched at its centre and at each of its
/// corners. Where its width and height together are no less than the hit
/// tolerance, a point farther from every corner than that sum does not
/// touch it; a smaller box is touched by whatever is in reach of a corner.
pub proof fn law_fresh_box_hit(from_coord: Coordinate, end_coord: Coordinate, p: Coordinate)
    requires
        from_coord.in_world(),
        end_coord.in_world(),
    ensures
        ({
            let e = Extent::between(from_coord, end_coord);
            &&& e.hit(centre(e))
            &&& forall|i: int| 0 <= i < 4 ==> e.hit(#[trigger] e.vertices()[i])
            &&& e.width + e.height >= HIT_TOLERANCE && far_from(e, p) ==> !e.hit(p)
        }),
{
    let e = Extent::between(from_coord, end_coord);
    let c = e.vertices();
    let w = e.width as int;
    let h = e.height as int;
    assert(0 <= w && 0 <= h);
    assert(in_box(c[0], c[2], centre(e)));
    assert forall|i: int| 0 <= i < 4 implies e.hit(#[trigger] c[i]) by {
        assert(in_box(c[0], c[2], c[i]));
    }
    if w + h >= HIT_TOLERANCE && far_from(e, p) && e.hit(p) {
        assert((w + h) * (w + h) >= 100) by (nonlinear_arith)
            requires
                w + h >= 10,
        ;
        if in_box(c[0], c[2], p) {
            let dx = p.x - c[0].x;
            let dy = p.y - c[0].y;
            assert(dx * dx + dy * dy <= (w + h) * (w + h)) by (nonlinear_arith)
                requires
                    0 <= dx <= w,
                    0 <= dy <= h,
            ;
            assert(dist_sq(p, c[0]) == dx * dx + dy * dy);
            assert(dist_sq(p, c[0]) > (w + h) * (w + h));
        } else {
            let i = if near(c[0], p) {
                0int
            } else if near(c[1], p) {
                1int
            } else if near(c[2], p) {
                2int
            } else {
                3int
            };
            assert(near(c[i], p));
            assert(dist_sq(p, c[i]) == dist_sq(c[i], p)) by (nonlinear_arith)
                requires
                    dist_sq(p, c[i]) == (p.x - c[i].x) * (p.x - c[i].x) + (p.y - c[i].y) * (p.y
                        - c[i].y),
                    dist_sq(c[i], p) == (c[i].x - p.x) * (c[i].x - p.x) + (c[i].y - p.y) * (c[i].y
                        - p.y),
            ;
            assert(dist_sq(p, c[i]) > (w + h) * (w + h));
            assert(HIT_TOLERANCE * HIT_TOLERANCE == 100) by (nonlinear_arith)
                requires
                    HIT_TOLERANCE == 10,
            ;
        }
    }
}

} // verus!

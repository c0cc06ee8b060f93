//! The pen: a freehand stroke, kept as the points it was sampled at.

use crate::binder::{DrawCircleOpts, DrawCmdView, DrawLineOpts};
use crate::codec::{all_numbers, as_ints, numbers_text, push_numbers, read_all_numbers};
use crate::coord::{dist_sq, distance_sq, is_near, near, within, Coordinate, WORLD_MAX};
use crate::decimal::chars_of;
use crate::draw_wrap::{circle, shown_all, DrawWrap};
use crate::elem::Status;
use crate::elem::line::{fits_shifted, in_world_range, point_fits_shifted, shifted_point};
use crate::geometry::{is_near_segment, near_segment};
use vstd::prelude::*;
use vstd::string::*;

verus! {

/// Two samples of a stroke are kept apart by more than this distance.
pub const SAMPLE_GAP: i64 = 1;

#[derive(Clone, Debug, PartialEq, Eq)]
pub struct Pen {
    pub coords: Vec<Coordinate>,
}

impl Default for Pen {
    fn default() -> (p: Pen)
        ensures
            p.coords@ == Pen::empty_points(),
            p.wf(),
    {
        let coords = vec![Coordinate { x: 0, y: 0 }];
        assert(coords@ =~= Pen::empty_points());
        Pen { coords }
    }
}

/// Whether every point of `s` lies in the world.
pub open spec fn all_in_world(s: Seq<Coordinate>) -> bool {
    forall|i: int| 0 <= i < s.len() ==> (#[trigger] s[i]).in_world()
}

/// Whether every point of `s`, shifted by `(dx, dy)`, is still in the world.
pub open spec fn all_fit_shifted(s: Seq<Coordinate>, dx: int, dy: int) -> bool {
    forall|i: int| 0 <= i < s.len() ==> point_fits_shifted(#[trigger] s[i], dx, dy)
}

/// The points of `s`, each shifted by `(dx, dy)`.
pub open spec fn all_shifted(s: Seq<Coordinate>, dx: int, dy: int) -> Seq<Coordinate> {
    Seq::new(s.len(), |i: int| shifted_point(s[i], dx, dy))
}

/// Whether `p` touches the stroke through the points `s`: it is closer than
/// the hit tolerance to one of its segments, or to its only point.
pub open spec fn near_stroke(s: Seq<Coordinate>, p: Coordinate) -> bool {
    ||| s.len() == 1 && near(s[0], p)
    ||| exists|i: int| 0 <= i < s.len() - 1 && near_segment(#[trigger] s[i], s[i + 1], p)
}

/// The points of a stroke after a drag sample from `from_coord` to
/// `end_coord`: a stroke of one point starts over at `from_coord`, and
/// `end_coord` is added if it is farther than the sample gap from the last
/// point.
pub open spec fn stroke_extended(
    s: Seq<Coordinate>,
    from_coord: Coordinate,
    end_coord: Coordinate,
) -> Seq<Coordinate> {
    let base = if s.len() == 1 { seq![from_coord] } else { s };
    if dist_sq(base.last(), end_coord) > SAMPLE_GAP * SAMPLE_GAP {
        base.push(end_coord)
    } else {
        base
    }
}

/// The points of a stroke after a move by `end_coord - from_coord`: all
/// shifted, or all as they are if one would leave the world.
pub open spec fn stroke_moved(
    s: Seq<Coordinate>,
    from_coord: Coordinate,
    end_coord: Coordinate,
) -> Seq<Coordinate> {
    let dx = end_coord.x - from_coord.x;
    let dy = end_coord.y - from_coord.y;
    if all_fit_shifted(s, dx, dy) {
        all_shifted(s, dx, dy)
    } else {
        s
    }
}

/// The points of a stroke after the end numbered `drag_vertex` was dragged:
/// dragging end 1 goes on with the stroke, any other number changes nothing.
pub open spec fn stroke_resized(
    s: Seq<Coordinate>,
    from_coord: Coordinate,
    end_coord: Coordinate,
    drag_vertex: int,
) -> Seq<Coordinate> {
    if drag_vertex == 1 {
        stroke_extended(s, from_coord, end_coord)
    } else {
        s
    }
}

/// Whether `s` can be the points of a stroke: there is one, and all lie in
/// the world.
pub open spec fn stroke_wf(s: Seq<Coordinate>) -> bool {
    s.len() >= 1 && all_in_world(s)
}

/// The coordinates of the points of `s` in one list: `x` before `y`, point
/// by point.
pub open spec fn flat(s: Seq<Coordinate>) -> Seq<int> {
    Seq::new(2 * s.len(), |i: int| if i % 2 == 0 { s[i / 2].x as int } else { s[i / 2].y as int })
}

/// The points that a list of coordinates gives, two by two.
pub open spec fn points_of(v: Seq<int>) -> Seq<Coordinate> {
    Seq::new(
        (v.len() / 2) as nat,
        |i: int| Coordinate { x: v[2 * i] as i64, y: v[2 * i + 1] as i64 },
    )
}

/// Whether every number of `v` is a coordinate of the world.
pub open spec fn all_within_world(v: Seq<int>) -> bool {
    forall|i: int| 0 <= i < v.len() ==> within(#[trigger] v[i], WORLD_MAX as int)
}

/// The text of a stroke: the coordinates of its points between commas.
pub open spec fn stroke_fields(s: Seq<Coordinate>) -> Seq<char> {
    numbers_text(flat(s))
}

/// The points of the stroke that a text stands for: an even number of
/// numbers between commas, two at least, all coordinates of the world.
pub open spec fn stroke_parsed(s: Seq<char>) -> Option<Seq<Coordinate>> {
    match all_numbers(s) {
        Some(v) => if v.len() >= 2 && v.len() % 2 == 0 && all_within_world(v) {
            Some(points_of(v))
        } else {
            None
        },
        None => None,
    }
}

/// The colour of a stroke.
pub const PEN_COLOR: u32 = 0xff0000;

/// The calls that draw the segments of a stroke up to its point `n - 1`, from
/// the segment between its second and third point on: each segment
/// `line_size` wide, and with it a dot of radius `dot_r` on the point it ends
/// at, or else on the point it starts from.
pub open spec fn stroke_marks(
    s: Seq<Coordinate>,
    n: nat,
    line_size: int,
    dot_r: int,
    dot_on_end: bool,
) -> Seq<DrawCmdView>
    decreases n,
{
    if n <= 2 {
        Seq::empty()
    } else {
        stroke_marks(s, (n - 1) as nat, line_size, dot_r, dot_on_end) + seq![
            DrawCmdView::Line(
                DrawLineOpts {
                    from_coord: s[n - 2],
                    end_coord: s[n - 1],
                    line_size: line_size as i64,
                    line_color: PEN_COLOR,
                },
            ),
            circle(if dot_on_end { s[n - 1] } else { s[n - 2] }, dot_r, 0, PEN_COLOR, PEN_COLOR),
        ]
    }
}

/// The calls that draw a stroke, in world coordinates: its segments, wider
/// when hovered, and a black ring about its last point when hovered or
/// resized.
pub open spec fn stroke_drawing(s: Seq<Coordinate>, status: Status) -> Seq<DrawCmdView> {
    match status {
        Status::Hover => stroke_marks(s, s.len(), 8, 4, false) + seq![circle(s.last(), 8, 1, 0, 0)],
        Status::Resizing(_) => stroke_marks(s, s.len(), 4, 2, true) + seq![
            circle(s.last(), 8, 1, 0, 0),
        ],
        _ => stroke_marks(s, s.len(), 4, 2, false),
    }
}

impl Pen {
    /// The calls that draw the stroke, in world coordinates.
    pub open spec fn drawing(self, status: Status) -> Seq<DrawCmdView> {
        stroke_drawing(self.coords@, status)
    }

    fn draw_marks(&self, draw: &mut DrawWrap, line_size: i64, dot_r: i64, dot_on_end: bool)
        requires
            self.wf(),
            old(draw).viewport.wf(),
            0 <= line_size <= 100,
            0 <= dot_r <= 100,
        ensures
            final(draw).viewport == old(draw).viewport,
            final(draw).drawn() == old(draw).drawn() + shown_all(
                old(draw).viewport,
                stroke_marks(
                    self.coords@,
                    self.coords@.len(),
                    line_size as int,
                    dot_r as int,
                    dot_on_end,
                ),
            ),
    {
        let ghost v = draw.viewport;
        let ghost before = draw.drawn();
        let ghost s = self.coords@;
        let n: usize = self.coords.len();
        let mut i: usize = 2;
        assert(before + shown_all(v, stroke_marks(s, 2, line_size as int, dot_r as int, dot_on_end))
            =~= before);
        if n <= 2 {
            assert(before + shown_all(
                v,
                stroke_marks(s, n as nat, line_size as int, dot_r as int, dot_on_end),
            ) =~= before);
            return ;
        }
        while i < n
            invariant
                2 <= i <= n,
                n == self.coords@.len(),
                s == self.coords@,
                self.wf(),
                draw.viewport == v,
                v.wf(),
                0 <= line_size <= 100,
                0 <= dot_r <= 100,
                draw.drawn() == before + shown_all(
                    v,
                    stroke_marks(s, i as nat, line_size as int, dot_r as int, dot_on_end),
                ),
            decreases n - i,
        {
            let prev = self.coords[i - 1];
            let coord = self.coords[i];
            assert(s[i - 1].in_world() && s[i as int].in_world());
            draw.draw_line(
                DrawLineOpts {
                    from_coord: prev,
                    end_coord: coord,
                    line_size,
                    line_color: PEN_COLOR,
                },
            );
            draw.draw_circle(
                DrawCircleOpts {
                    center_coord: if dot_on_end {
                        coord
                    } else {
                        prev
                    },
                    r: dot_r,
                    line_size: 0,
                    line_color: PEN_COLOR,
                    fill_color: PEN_COLOR,
                },
            );
            assert(draw.drawn() =~= before + shown_all(
                v,
                stroke_marks(s, (i + 1) as nat, line_size as int, dot_r as int, dot_on_end),
            ));
            i = i + 1;
        }
    }

    pub fn draw(&self, draw: &mut DrawWrap, status: Status)
        requires
            self.wf(),
            old(draw).viewport.wf(),
        ensures
            final(draw).viewport == old(draw).viewport,
            final(draw).drawn() == old(draw).drawn() + shown_all(
                old(draw).viewport,
                self.drawing(status),
            ),
    {
        let ghost v = draw.viewport;
        let ghost before = draw.drawn();
        let last = self.coords[self.coords.len() - 1];
        assert(self.coords@.last().in_world());
        match status {
            Status::Hover => {
                self.draw_marks(draw, 8, 4, false);
                draw.draw_circle(
                    DrawCircleOpts {
                        center_coord: last,
                        r: 8,
                        line_size: 1,
                        line_color: 0,
                        fill_color: 0,
                    },
                );
            },
            Status::Resizing(_) => {
                self.draw_marks(draw, 4, 2, true);
                draw.draw_circle(
                    DrawCircleOpts {
                        center_coord: last,
                        r: 8,
                        line_size: 1,
                        line_color: 0,
                        fill_color: 0,
                    },
                );
            },
            _ => {
                self.draw_marks(draw, 4, 2, false);
            },
        }
        assert(draw.drawn() =~= before + shown_all(v, self.drawing(status)));
    }

    /// The points that a new stroke starts from: the origin alone.
    pub open spec fn empty_points() -> Seq<Coordinate> {
        seq![Coordinate { x: 0, y: 0 }]
    }

    /// The stroke has a point, and every point lies in the world.
    pub open spec fn wf(self) -> bool {
        stroke_wf(self.coords@)
    }

    /// The first and the last point.
    pub open spec fn vertices(self) -> Seq<Coordinate> {
        seq![self.coords@.first(), self.coords@.last()]
    }

    /// The points after a move by `end_coord - from_coord`.
    pub open spec fn moved(self, from_coord: Coordinate, end_coord: Coordinate) -> Seq<Coordinate> {
        stroke_moved(self.coords@, from_coord, end_coord)
    }

    /// The points after the end numbered `drag_vertex` was dragged.
    pub open spec fn resized(
        self,
        from_coord: Coordinate,
        end_coord: Coordinate,
        drag_vertex: int,
    ) -> Seq<Coordinate> {
        stroke_resized(self.coords@, from_coord, end_coord, drag_vertex)
    }

    /// Whether a point touches the stroke.
    pub open spec fn hit(self, p: Coordinate) -> bool {
        near_stroke(self.coords@, p)
    }

    /// Whether the stroke is well formed.
    pub fn is_valid(&self) -> (r: bool)
        ensures
            r == self.wf(),
    {
        let n: usize = self.coords.len();
        if n == 0 {
            return false;
        }
        let mut i: usize = 0;
        while i < n
            invariant
                i <= n,
                n == self.coords@.len(),
                forall|j: int| 0 <= j < i ==> (#[trigger] self.coords@[j]).in_world(),
            decreases n - i,
        {
            let c = self.coords[i];
            if !in_world_range(c.x) || !in_world_range(c.y) {
                assert(!self.coords@[i as int].in_world());
                return false;
            }
            i = i + 1;
        }
        true
    }

    pub fn get_vertex(&self) -> (r: Vec<Coordinate>)
        requires
            self.wf(),
        ensures
            r@ == self.vertices(),
    {
        let r = vec![self.coords[0], self.coords[self.coords.len() - 1]];
        assert(r@ =~= self.vertices());
        r
    }

    pub fn creating(&mut self, from_coord: Coordinate, end_coord: Coordinate)
        requires
            old(self).wf(),
            from_coord.in_world(),
            end_coord.in_world(),
        ensures
            final(self).coords@ == stroke_extended(old(self).coords@, from_coord, end_coord),
            final(self).wf(),
    {
        if self.coords.len() == 1 {
            self.coords.set(0, from_coord);
            assert(self.coords@ =~= seq![from_coord]);
        }
        let last = self.coords[self.coords.len() - 1];
        if distance_sq(last, end_coord) > SAMPLE_GAP * SAMPLE_GAP {
            self.coords.push(end_coord);
        }
    }

    pub fn edit_moving(&mut self, from_coord: Coordinate, end_coord: Coordinate)
        requires
            old(self).wf(),
            from_coord.in_world(),
            end_coord.in_world(),
        ensures
            final(self).coords@ == old(self).moved(from_coord, end_coord),
            final(self).wf(),
    {
        let ghost before = self.coords@;
        let ghost dx = end_coord.x - from_coord.x;
        let ghost dy = end_coord.y - from_coord.y;
        let n: usize = self.coords.len();
        let mut i: usize = 0;
        while i < n
            invariant
                i <= n,
                n == self.coords@.len(),
                self.coords@ == before,
                all_in_world(before),
                from_coord.in_world(),
                end_coord.in_world(),
                dx == end_coord.x - from_coord.x,
                dy == end_coord.y - from_coord.y,
                forall|j: int| 0 <= j < i ==> point_fits_shifted(#[trigger] before[j], dx, dy),
            decreases n - i,
        {
            if !fits_shifted(self.coords[i], from_coord, end_coord) {
                return ;
            }
            i = i + 1;
        }
        let x_dif: i64 = end_coord.x - from_coord.x;
        let y_dif: i64 = end_coord.y - from_coord.y;
        i = 0;
        while i < n
            invariant
                i <= n,
                n == self.coords@.len(),
                n == before.len(),
                all_fit_shifted(before, dx, dy),
                x_dif == dx,
                y_dif == dy,
                forall|j: int|
                    0 <= j < i ==> #[trigger] self.coords@[j] == shifted_point(before[j], dx, dy),
                forall|j: int| i <= j < n ==> #[trigger] self.coords@[j] == before[j],
            decreases n - i,
        {
            let c = self.coords[i];
            assert(point_fits_shifted(before[i as int], dx, dy));
            self.coords.set(i, Coordinate { x: c.x + x_dif, y: c.y + y_dif });
            i = i + 1;
        }
        assert(self.coords@ =~= all_shifted(before, dx, dy));
    }

    pub fn edit_resizing(&mut self, from_coord: Coordinate, end_coord: Coordinate, drag_vertex: i32)
        requires
            old(self).wf(),
            from_coord.in_world(),
            end_coord.in_world(),
        ensures
            final(self).coords@ == old(self).resized(from_coord, end_coord, drag_vertex as int),
            final(self).wf(),
    {
        if drag_vertex == 1 {
            self.creating(from_coord, end_coord);
        }
    }

    /// The text of the stroke.
    pub open spec fn fields(self) -> Seq<char> {
        stroke_fields(self.coords@)
    }

    pub fn elem_type(&self) -> (r: String)
        ensures
            r@ == "pen"@,
    {
        "pen".to_owned()
    }

    pub fn export(&self) -> (r: String)
        ensures
            r@ == self.fields(),
    {
        let mut values: Vec<i64> = Vec::new();
        let n: usize = self.coords.len();
        let mut i: usize = 0;
        while i < n
            invariant
                i <= n,
                n == self.coords@.len(),
                values@.len() == 2 * i,
                forall|j: int|
                    0 <= j < i ==> values@[2 * j] == self.coords@[j].x && values@[2 * j + 1]
                        == self.coords@[j].y,
            decreases n - i,
        {
            let c = self.coords[i];
            values.push(c.x);
            values.push(c.y);
            i = i + 1;
        }
        assert(as_ints(values@) =~= flat(self.coords@)) by {
            assert forall|k: int| 0 <= k < 2 * n implies as_ints(values@)[k] == flat(
                self.coords@,
            )[k] by {
                let j = k / 2;
                assert(0 <= j < n);
                assert(k == 2 * j || k == 2 * j + 1);
            }
        }
        let mut out = String::new();
        push_numbers(&mut out, &values);
        assert(out@ =~= self.fields());
        out
    }

    /// Reads a stroke from its text.
    pub fn import(&self, content: &str) -> (r: Option<Pen>)
        ensures
            match r {
                Some(p) => stroke_parsed(content@) == Some(p.coords@) && p.wf(),
                None => stroke_parsed(content@) is None,
            },
    {
        let chars = chars_of(content);
        assert(chars@.subrange(0, chars@.len() as int) =~= content@);
        match read_all_numbers(&chars, 0, chars.len()) {
            Some(v) => {
                let ghost ints = as_ints(v@);
                let n: usize = v.len();
                if n < 2 || n % 2 != 0 {
                    return None;
                }
                let mut coords: Vec<Coordinate> = Vec::new();
                let mut i: usize = 0;
                while i < n / 2
                    invariant
                        i <= n / 2,
                        n == v@.len(),
                        n % 2 == 0,
                        ints == as_ints(v@),
                        all_numbers(content@) == Some(ints),
                        coords@.len() == i,
                        forall|k: int|
                            0 <= k < 2 * i ==> within(#[trigger] ints[k], WORLD_MAX as int),
                        forall|j: int|
                            0 <= j < i ==> #[trigger] coords@[j] == (Coordinate {
                                x: v@[2 * j],
                                y: v@[2 * j + 1],
                            }),
                    decreases n / 2 - i,
                {
                    let x: i64 = v[2 * i];
                    let y: i64 = v[2 * i + 1];
                    if !in_world_range(x) || !in_world_range(y) {
                        assert(!within(ints[2 * i], WORLD_MAX as int) || !within(
                            ints[2 * i + 1],
                            WORLD_MAX as int,
                        ));
                        return None;
                    }
                    coords.push(Coordinate { x, y });
                    assert forall|k: int| 0 <= k < 2 * (i + 1) implies within(
                        #[trigger] ints[k],
                        WORLD_MAX as int,
                    ) by {
                        if k >= 2 * i {
                            assert(k == 2 * i || k == 2 * i + 1);
                        }
                    }
                    i = i + 1;
                }
                assert(coords@ =~= points_of(ints));
                assert(all_within_world(ints));
                assert(all_in_world(coords@));
                Some(Pen { coords })
            },
            None => None,
        }
    }

    pub fn hover_condition(&self, mouse_point: Coordinate) -> (r: bool)
        requires
            self.wf(),
            mouse_point.in_world(),
        ensures
            r == self.hit(mouse_point),
    {
        let n: usize = self.coords.len();
        if n == 1 {
            return is_near(self.coords[0], mouse_point);
        }
        let mut i: usize = 0;
        while i < n - 1
            invariant
                2 <= n,
                n == self.coords@.len(),
                i <= n - 1,
                self.wf(),
                mouse_point.in_world(),
                forall|j: int|
                    0 <= j < i ==> !near_segment(
                        #[trigger] self.coords@[j],
                        self.coords@[j + 1],
                        mouse_point,
                    ),
            decreases n - i,
        {
            if is_near_segment(self.coords[i], self.coords[i + 1], mouse_point) {
                return true;
            }
            i = i + 1;
        }
        false
    }
}

} // verus!

//! The line: a straight segment between two points.

use crate::binder::{DrawCmdView, DrawLineOpts};
use crate::codec::{all_numbers, as_ints, numbers_text, push_numbers, read_all_numbers};
use crate::coord::{within, Coordinate, WORLD_MAX};
use crate::decimal::chars_of;
use crate::draw_wrap::{handles, shown_all, DrawWrap};
use crate::elem::Status;
use crate::geometry::{is_near_segment, near_segment};
use vstd::prelude::*;
use vstd::string::*;

verus! {

#[derive(Clone, Copy, Debug, PartialEq, Eq, Structural)]
pub struct Line {
    pub from_coord: Coordinate,
    pub end_coord: Coordinate,
}

impl Default for Line {
    fn default() -> (l: Line)
        ensures
            l == Line::empty(),
    {
        Line { from_coord: Coordinate { x: 0, y: 0 }, end_coord: Coordinate { x: 0, y: 0 } }
    }
}

/// The point `c` shifted by `(dx, dy)`.
pub open spec fn shifted_point(c: Coordinate, dx: int, dy: int) -> Coordinate {
    Coordinate { x: (c.x + dx) as i64, y: (c.y + dy) as i64 }
}

/// Whether the point `c`, shifted by `(dx, dy)`, is still in the world.
pub open spec fn point_fits_shifted(c: Coordinate, dx: int, dy: int) -> bool {
    within(c.x + dx, WORLD_MAX as int) && within(c.y + dy, WORLD_MAX as int)
}

/// Whether a point of the world, shifted by the difference of two points of
/// the world, is still in the world.
pub fn fits_shifted(c: Coordinate, from_coord: Coordinate, end_coord: Coordinate) -> (r: bool)
    requires
        c.in_world(),
        from_coord.in_world(),
        end_coord.in_world(),
    ensures
        r == point_fits_shifted(c, end_coord.x - from_coord.x, end_coord.y - from_coord.y),
{
    let x: i64 = c.x + (end_coord.x - from_coord.x);
    let y: i64 = c.y + (end_coord.y - from_coord.y);
    -WORLD_MAX <= x && x <= WORLD_MAX && -WORLD_MAX <= y && y <= WORLD_MAX
}

/// Whether a number is a coordinate of the world.
pub fn in_world_range(v: i64) -> (r: bool)
    ensures
        r == within(v as int, WORLD_MAX as int),
{
    -WORLD_MAX <= v && v <= WORLD_MAX
}

impl Line {
    /// The line that a new one starts from: both ends at the origin.
    pub open spec fn empty() -> Line {
        Line { from_coord: Coordinate { x: 0, y: 0 }, end_coord: Coordinate { x: 0, y: 0 } }
    }

    /// Both ends lie in the world.
    pub open spec fn wf(self) -> bool {
        self.from_coord.in_world() && self.end_coord.in_world()
    }

    /// The two ends, the start first.
    pub open spec fn vertices(self) -> Seq<Coordinate> {
        seq![self.from_coord, self.end_coord]
    }

    /// The line after a move by `end_coord - from_coord`: both ends shifted,
    /// or the line as it is if an end would leave the world.
    pub open spec fn moved(self, from_coord: Coordinate, end_coord: Coordinate) -> Line {
        let dx = end_coord.x - from_coord.x;
        let dy = end_coord.y - from_coord.y;
        if point_fits_shifted(self.from_coord, dx, dy) && point_fits_shifted(
            self.end_coord,
            dx,
            dy,
        ) {
            Line {
                from_coord: shifted_point(self.from_coord, dx, dy),
                end_coord: shifted_point(self.end_coord, dx, dy),
            }
        } else {
            self
        }
    }

    /// The line after the end numbered `drag_vertex` was dragged to
    /// `end_coord`: 0 is the start, 1 the end, any other number neither.
    pub open spec fn resized(self, end_coord: Coordinate, drag_vertex: int) -> Line {
        if drag_vertex == 0 {
            Line { from_coord: end_coord, ..self }
        } else if drag_vertex == 1 {
            Line { end_coord: end_coord, ..self }
        } else {
            self
        }
    }

    /// Whether a point touches the line: it is closer to the segment than
    /// the hit tolerance.
    pub open spec fn hit(self, p: Coordinate) -> bool {
        near_segment(self.from_coord, self.end_coord, p)
    }

    /// The calls that draw the line, in world coordinates: the segment in
    /// red, wider when hovered, and a ring about each end when hovered or
    /// resized.
    pub open spec fn drawing(self, status: Status) -> Seq<DrawCmdView> {
        let segment = |line_size: i64|
            DrawCmdView::Line(
                DrawLineOpts {
                    from_coord: self.from_coord,
                    end_coord: self.end_coord,
                    line_size,
                    line_color: 0xff0000,
                },
            );
        match status {
            Status::Hover => seq![segment(5)] + handles(self.vertices(), 5, 1, 0xff0000, 0),
            Status::Resizing(_) => seq![segment(3)] + handles(self.vertices(), 5, 1, 0xff0000, 0),
            _ => seq![segment(3)],
        }
    }

    pub fn draw(&self, draw: &mut DrawWrap, status: Status)
        requires
            self.wf(),
            old(draw).viewport.wf(),
        ensures
            final(draw).viewport == old(draw).viewport,
            final(draw).drawn() == old(draw).drawn() + shown_all(
                old(draw).viewport,
                self.drawing(status),
            ),
    {
        let line_color: u32 = 0xff0000;
        let ghost v = draw.viewport;
        let ghost before = draw.drawn();
        match status {
            Status::Hover => {
                draw.draw_line(
                    DrawLineOpts {
                        from_coord: self.from_coord,
                        end_coord: self.end_coord,
                        line_size: 5,
                        line_color,
                    },
                );
                draw.draw_handles(&self.get_vertex(), 5, 1, line_color, 0);
            },
            Status::Resizing(_) => {
                draw.draw_line(
                    DrawLineOpts {
                        from_coord: self.from_coord,
                        end_coord: self.end_coord,
                        line_size: 3,
                        line_color,
                    },
                );
                draw.draw_handles(&self.get_vertex(), 5, 1, line_color, 0);
            },
            _ => {
                draw.draw_line(
                    DrawLineOpts {
                        from_coord: self.from_coord,
                        end_coord: self.end_coord,
                        line_size: 3,
                        line_color,
                    },
                );
            },
        }
        assert(draw.drawn() =~= before + shown_all(v, self.drawing(status)));
    }

    /// Whether the line is well formed.
    pub fn is_valid(&self) -> (r: bool)
        ensures
            r == self.wf(),
    {
        in_world_range(self.from_coord.x) && in_world_range(self.from_coord.y) && in_world_range(
            self.end_coord.x,
        ) && in_world_range(self.end_coord.y)
    }

    pub fn get_vertex(&self) -> (r: Vec<Coordinate>)
        ensures
            r@ == self.vertices(),
    {
        let r = vec![self.from_coord, self.end_coord];
        assert(r@ =~= self.vertices());
        r
    }

    pub fn creating(&mut self, from_coord: Coordinate, end_coord: Coordinate)
        requires
            from_coord.in_world(),
            end_coord.in_world(),
        ensures
            *final(self) == (Line { from_coord, end_coord }),
            final(self).wf(),
    {
        self.from_coord = from_coord;
        self.end_coord = end_coord;
    }

    pub fn edit_moving(&mut self, from_coord: Coordinate, end_coord: Coordinate)
        requires
            old(self).wf(),
            from_coord.in_world(),
            end_coord.in_world(),
        ensures
            *final(self) == old(self).moved(from_coord, end_coord),
            final(self).wf(),
    {
        if fits_shifted(self.from_coord, from_coord, end_coord) && fits_shifted(
            self.end_coord,
            from_coord,
            end_coord,
        ) {
            let x_dif: i64 = end_coord.x - from_coord.x;
            let y_dif: i64 = end_coord.y - from_coord.y;
            self.from_coord.x = self.from_coord.x + x_dif;
            self.from_coord.y = self.from_coord.y + y_dif;
            self.end_coord.x = self.end_coord.x + x_dif;
            self.end_coord.y = self.end_coord.y + y_dif;
        }
    }

    pub fn edit_resizing(&mut self, from_coord: Coordinate, end_coord: Coordinate, drag_vertex: i32)
        requires
            old(self).wf(),
            end_coord.in_world(),
        ensures
            *final(self) == old(self).resized(end_coord, drag_vertex as int),
            final(self).wf(),
    {
        if drag_vertex == 0 {
            self.from_coord = end_coord;
        } else if drag_vertex == 1 {
            self.end_coord = end_coord;
        }
    }

    /// The text of the line: the coordinates of its start and of its end.
    pub open spec fn fields(self) -> Seq<char> {
        numbers_text(
            seq![
                self.from_coord.x as int,
                self.from_coord.y as int,
                self.end_coord.x as int,
                self.end_coord.y as int,
            ],
        )
    }

    /// The line that a text stands for: four numbers between commas, which
    /// give two points of the world.
    pub open spec fn parsed(s: Seq<char>) -> Option<Line> {
        match all_numbers(s) {
            Some(v) => {
                let line = Line {
                    from_coord: Coordinate { x: v[0] as i64, y: v[1] as i64 },
                    end_coord: Coordinate { x: v[2] as i64, y: v[3] as i64 },
                };
                if v.len() == 4 && within(v[0], WORLD_MAX as int) && within(v[1], WORLD_MAX as int)
                    && within(v[2], WORLD_MAX as int) && within(v[3], WORLD_MAX as int) {
                    Some(line)
                } else {
                    None
                }
            },
            None => None,
        }
    }

    pub fn elem_type(&self) -> (r: String)
        ensures
            r@ == "line"@,
    {
        "line".to_owned()
    }

    pub fn export(&self) -> (r: String)
        ensures
            r@ == self.fields(),
    {
        let values = vec![self.from_coord.x, self.from_coord.y, self.end_coord.x, self.end_coord.y];
        assert(as_ints(values@) =~= seq![
            self.from_coord.x as int,
            self.from_coord.y as int,
            self.end_coord.x as int,
            self.end_coord.y as int,
        ]);
        let mut out = String::new();
        push_numbers(&mut out, &values);
        assert(out@ =~= self.fields());
        out
    }

    /// Reads a line from its text.
    pub fn import(&self, content: &str) -> (r: Option<Line>)
        ensures
            r == Line::parsed(content@),
            r matches Some(l) ==> l.wf(),
    {
        let chars = chars_of(content);
        assert(chars@.subrange(0, chars@.len() as int) =~= content@);
        match read_all_numbers(&chars, 0, chars.len()) {
            Some(v) => {
                if v.len() == 4 && in_world_range(v[0]) && in_world_range(v[1]) && in_world_range(
                    v[2],
                ) && in_world_range(v[3]) {
                    Some(
                        Line {
                            from_coord: Coordinate { x: v[0], y: v[1] },
                            end_coord: Coordinate { x: v[2], y: v[3] },
                        },
                    )
                } else {
                    None
                }
            },
            None => None,
        }
    }

    pub fn hover_condition(&self, mouse_point: Coordinate) -> (r: bool)
        requires
            self.wf(),
            mouse_point.in_world(),
        ensures
            r == self.hit(mouse_point),
    {
        is_near_segment(self.from_coord, self.end_coord, mouse_point)
    }
}

} // verus!

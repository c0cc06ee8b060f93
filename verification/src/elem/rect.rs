//! The rectangle: an axis-parallel box with a stroke and an optional fill.

use crate::binder::{DrawCmdView, DrawRectOpts};
use crate::codec::{all_numbers, as_ints, read_all_numbers};
use crate::coord::{Coordinate, WORLD_MAX};
use crate::decimal::{chars_of, NUMBER_MAX};
use crate::draw_wrap::{handles, shown_all, DrawWrap};
use crate::elem::{lemma_vertices, ElemView, Status};
use crate::elem::extent::Extent;
use vstd::prelude::*;
use vstd::string::*;

verus! {

/// How the outline of a rectangle is stroked.
#[derive(Clone, Copy, Debug, PartialEq, Eq, Structural)]
pub enum LineStyle {
    Solid,
    Dotted,
}

impl Default for LineStyle {
    fn default() -> (s: LineStyle)
        ensures
            s == LineStyle::Solid,
    {
        LineStyle::Solid
    }
}

#[derive(Clone, Copy, Debug, PartialEq, Eq, Structural)]
pub struct Rect {
    /// The corner the box is measured from: the top-left one unless a
    /// dimension is negative.
    pub lt_coord: Coordinate,
    pub width: i64,
    pub height: i64,
    pub line_size: i64,
    pub line_color: u32,
    pub fill_color: Option<u32>,
    pub line_style: LineStyle,
}

impl Default for Rect {
    fn default() -> (r: Rect)
        ensures
            r == Rect::empty(),
    {
        Rect {
            lt_coord: Coordinate { x: 0, y: 0 },
            width: 0,
            height: 0,
            line_size: 3,
            line_color: 0xff0000,
            fill_color: None,
            line_style: LineStyle::Solid,
        }
    }
}

impl Rect {
    /// The rectangle that a new one starts from: no size, at the origin, a
    /// solid red stroke of width 3 and no fill.
    pub open spec fn empty() -> Rect {
        Rect {
            lt_coord: Coordinate { x: 0, y: 0 },
            width: 0,
            height: 0,
            line_size: 3,
            line_color: 0xff0000,
            fill_color: None,
            line_style: LineStyle::Solid,
        }
    }

    /// Where the rectangle is and how large.
    pub open spec fn extent(self) -> Extent {
        Extent { lt_coord: self.lt_coord, width: self.width, height: self.height }
    }

    /// The rectangle with the given extent and this one's style.
    pub open spec fn with_extent(self, e: Extent) -> Rect {
        Rect { lt_coord: e.lt_coord, width: e.width, height: e.height, ..self }
    }

    /// Every corner lies in the world, and the stroke is no wider than the
    /// world reaches.
    pub open spec fn wf(self) -> bool {
        self.extent().wf() && 0 <= self.line_size <= WORLD_MAX
    }

    /// The corners: top-left, top-right, bottom-right, bottom-left.
    pub open spec fn vertices(self) -> Seq<Coordinate> {
        self.extent().vertices()
    }

    /// Whether a point touches the rectangle: it lies in the box or closer
    /// than the hit tolerance to a corner.
    pub open spec fn hit(self, p: Coordinate) -> bool {
        self.extent().hit(p)
    }

    /// The outline, stroked `line_size` wide.
    pub open spec fn outline(self, line_size: int) -> DrawCmdView {
        DrawCmdView::Rect(
            DrawRectOpts {
                left_top_coord: self.lt_coord,
                width: self.width,
                height: self.height,
                line_size: line_size as i64,
                line_color: self.line_color,
                fill_color: self.fill_color,
                line_style: self.line_style,
            },
        )
    }

    /// The calls that draw the rectangle, in world coordinates: the outline,
    /// wider when hovered, and a dot on each corner when hovered or resized.
    pub open spec fn drawing(self, status: Status) -> Seq<DrawCmdView> {
        match status {
            Status::Hover => seq![self.outline(self.line_size + 2)] + handles(
                self.vertices(),
                self.line_size + 2,
                0,
                self.line_color,
                0,
            ),
            Status::Resizing(_) => seq![self.outline(self.line_size as int)] + handles(
                self.vertices(),
                self.line_size + 2,
                0,
                self.line_color,
                0,
            ),
            _ => seq![self.outline(self.line_size as int)],
        }
    }

    pub fn draw(&self, draw: &mut DrawWrap, status: Status)
        requires
            self.wf(),
            old(draw).viewport.wf(),
        ensures
            final(draw).viewport == old(draw).viewport,
            final(draw).drawn() == old(draw).drawn() + shown_all(
                old(draw).viewport,
                self.drawing(status),
            ),
    {
        let line_color = self.line_color;
        let line_size = self.line_size;
        let fill_color = self.fill_color;
        let line_style = self.line_style;
        let ghost v = draw.viewport;
        let ghost before = draw.drawn();
        proof {
            lemma_vertices(ElemView::Rect(*self));
        }
        match status {
            Status::Hover => {
                draw.draw_rect(
                    DrawRectOpts {
                        left_top_coord: self.lt_coord,
                        width: self.width,
                        height: self.height,
                        line_size: line_size + 2,
                        line_color,
                        fill_color,
                        line_style,
                    },
                );
                draw.draw_handles(&self.get_vertex(), line_size + 2, 0, line_color, 0);
            },
            Status::Resizing(_) => {
                draw.draw_rect(
                    DrawRectOpts {
                        left_top_coord: self.lt_coord,
                        width: self.width,
                        height: self.height,
                        line_size,
                        line_color,
                        fill_color,
                        line_style,
                    },
                );
                draw.draw_handles(&self.get_vertex(), line_size + 2, 0, line_color, 0);
            },
            _ => {
                draw.draw_rect(
                    DrawRectOpts {
                        left_top_coord: self.lt_coord,
                        width: self.width,
                        height: self.height,
                        line_size,
                        line_color,
                        fill_color,
                        line_style,
                    },
                );
            },
        }
        assert(draw.drawn() =~= before + shown_all(v, self.drawing(status)));
    }

    /// Whether the rectangle is well formed.
    pub fn is_valid(&self) -> (r: bool)
        ensures
            r == self.wf(),
    {
        self.get_extent().is_valid() && 0 <= self.line_size && self.line_size <= WORLD_MAX
    }

    fn get_extent(&self) -> (e: Extent)
        ensures
            e == self.extent(),
    {
        Extent { lt_coord: self.lt_coord, width: self.width, height: self.height }
    }

    fn set_extent(&mut self, e: Extent)
        ensures
            *final(self) == old(self).with_extent(e),
    {
        self.lt_coord = e.lt_coord;
        self.width = e.width;
        self.height = e.height;
    }

    pub fn get_vertex(&self) -> (r: Vec<Coordinate>)
        requires
            self.wf(),
        ensures
            r@ == self.vertices(),
    {
        self.get_extent().get_vertex()
    }

    /// Spans the box between the two points, whichever way it was dragged.
    pub fn creating(&mut self, from_coord: Coordinate, end_coord: Coordinate)
        requires
            old(self).wf(),
            from_coord.in_world(),
            end_coord.in_world(),
        ensures
            *final(self) == old(self).with_extent(Extent::between(from_coord, end_coord)),
            final(self).wf(),
    {
        self.set_extent(Extent::creating(from_coord, end_coord));
    }

    /// Shifts the box by `end_coord - from_coord`, unless that would carry a
    /// corner out of the world.
    pub fn edit_moving(&mut self, from_coord: Coordinate, end_coord: Coordinate)
        requires
            old(self).wf(),
            from_coord.in_world(),
            end_coord.in_world(),
        ensures
            *final(self) == old(self).with_extent(old(self).extent().moved(from_coord, end_coord)),
            final(self).wf(),
    {
        let e = self.get_extent().edit_moving(from_coord, end_coord);
        self.set_extent(e);
    }

    /// Drags corner `drag_vertex` to `end_coord`.
    pub fn edit_resizing(&mut self, from_coord: Coordinate, end_coord: Coordinate, drag_vertex: i32)
        requires
            old(self).wf(),
            end_coord.in_world(),
        ensures
            *final(self) == old(self).with_extent(
                old(self).extent().resized(end_coord, drag_vertex as int),
            ),
            final(self).wf(),
    {
        let e = self.get_extent().edit_resizing(end_coord, drag_vertex);
        self.set_extent(e);
    }

    /// The text of the rectangle: the text of its extent.
    pub open spec fn fields(self) -> Seq<char> {
        self.extent().fields()
    }

    /// The rectangle that a text stands for: four numbers between commas,
    /// which give an extent in the world; its style is that of a new one.
    pub open spec fn parsed(s: Seq<char>) -> Option<Rect> {
        match all_numbers(s) {
            Some(v) => match Extent::of_numbers(v) {
                Some(e) => Some(Rect::empty().with_extent(e)),
                None => None,
            },
            None => None,
        }
    }

    pub fn elem_type(&self) -> (r: String)
        ensures
            r@ == "rect"@,
    {
        "rect".to_owned()
    }

    pub fn export(&self) -> (r: String)
        ensures
            r@ == self.fields(),
    {
        let mut out = String::new();
        self.get_extent().export_to(&mut out);
        assert(out@ =~= self.fields());
        out
    }

    /// Reads a rectangle from its text.
    pub fn import(&self, content: &str) -> (r: Option<Rect>)
        ensures
            r == Rect::parsed(content@),
            r matches Some(rect) ==> rect.wf(),
    {
        let chars = chars_of(content);
        assert(chars@.subrange(0, chars@.len() as int) =~= content@);
        match read_all_numbers(&chars, 0, chars.len()) {
            Some(v) => {
                assert forall|i: int| 0 <= i < v@.len() implies -NUMBER_MAX <= #[trigger] v@[i]
                    <= NUMBER_MAX by {
                    assert(as_ints(v@)[i] == v@[i]);
                }
                match Extent::from_numbers(&v) {
                    Some(e) => {
                        let mut rect = Rect::default();
                        rect.set_extent(e);
                        Some(rect)
                    },
                    None => None,
                }
            },
            None => None,
        }
    }

    pub fn hover_condition(&self, mouse_point: Coordinate) -> (r: bool)
        requires
            self.wf(),
            mouse_point.in_world(),
        ensures
            r == self.hit(mouse_point),
    {
        self.get_extent().hover_condition(mouse_point)
    }
}

} // verus!

//! The shapes of the panel and what they have in common.

pub mod extent;
pub mod line;
pub mod pen;
pub mod rect;
pub mod text;

use crate::binder::DrawCmdView;
use crate::codec::{all_readable, lemma_all_numbers, lemma_leading_numbers};
use crate::coord::{within, Coordinate, WORLD_MAX};
use crate::decimal::NUMBER_MAX;
use crate::draw_wrap::{shown_all, DrawWrap};
use crate::elem::extent::Extent;
use crate::elem::line::Line;
use crate::elem::pen::{
    all_within_world, flat, near_stroke, points_of, stroke_drawing, stroke_extended, stroke_fields,
    stroke_moved, stroke_parsed, stroke_resized, stroke_wf, Pen,
};
use crate::elem::rect::Rect;
use crate::elem::text::{text_drawing, Text};
use vstd::prelude::*;
use vstd::string::*;

verus! {

/// How a shape is shown; this decides its decoration, never its geometry.
#[derive(Clone, Copy, Debug, PartialEq, Eq, Structural)]
pub enum Status {
    Default,
    Hover,
    Creating,
    Resizing(u8),
}

/// A shape of one of the four kinds.
#[derive(Clone, Debug, PartialEq, Eq)]
pub enum Elem {
    Pen(Pen),
    Line(Line),
    Rect(Rect),
    Text(Text),
}

/// What a shape is: its kind, its geometry, and its style or label.
pub enum ElemView {
    /// A stroke through the given points.
    Pen(Seq<Coordinate>),
    Line(Line),
    Rect(Rect),
    /// A text box of the given extent and label.
    Text(Extent, Seq<char>),
}

/// What each shape of `s` is.
pub open spec fn elem_views(s: Seq<Elem>) -> Seq<ElemView> {
    Seq::new(s.len(), |i: int| s[i]@)
}

impl ElemView {
    /// Every point of the shape lies in the world, and a stroke has a point.
    pub open spec fn wf(self) -> bool {
        match self {
            ElemView::Pen(s) => stroke_wf(s),
            ElemView::Line(l) => l.wf(),
            ElemView::Rect(r) => r.wf(),
            ElemView::Text(e, _) => e.wf(),
        }
    }

    /// The handles of the shape: the four corners of a box, from the
    /// top-left one clockwise; the two ends of a line or a stroke.
    pub open spec fn vertices(self) -> Seq<Coordinate> {
        match self {
            ElemView::Pen(s) => seq![s.first(), s.last()],
            ElemView::Line(l) => l.vertices(),
            ElemView::Rect(r) => r.vertices(),
            ElemView::Text(e, _) => e.vertices(),
        }
    }

    /// Whether a point touches the shape.
    pub open spec fn hit(self, p: Coordinate) -> bool {
        match self {
            ElemView::Pen(s) => near_stroke(s, p),
            ElemView::Line(l) => l.hit(p),
            ElemView::Rect(r) => r.hit(p),
            ElemView::Text(e, _) => e.hit(p),
        }
    }

    /// The calls that draw the shape, in world coordinates.
    pub open spec fn drawing(self, status: Status) -> Seq<DrawCmdView> {
        match self {
            ElemView::Pen(s) => stroke_drawing(s, status),
            ElemView::Line(l) => l.drawing(status),
            ElemView::Rect(r) => r.drawing(status),
            ElemView::Text(e, c) => text_drawing(e, c, status),
        }
    }

    /// Whether the shape takes text from the host.
    pub open spec fn need_input(self) -> bool {
        self is Text
    }

    /// The label of a text box; no other shape has one.
    pub open spec fn content(self) -> Seq<char> {
        match self {
            ElemView::Text(_, c) => c,
            _ => Seq::empty(),
        }
    }

    /// The shape with its label replaced; a shape without one is unchanged.
    pub open spec fn with_content(self, content: Seq<char>) -> ElemView {
        match self {
            ElemView::Text(e, _) => ElemView::Text(e, content),
            _ => self,
        }
    }

    /// The shape after a drag sample of its creation from `from_coord` to
    /// `end_coord`: a box spans the two points, a line joins them, a stroke
    /// goes on to `end_coord`.
    pub open spec fn created(self, from_coord: Coordinate, end_coord: Coordinate) -> ElemView {
        match self {
            ElemView::Pen(s) => ElemView::Pen(stroke_extended(s, from_coord, end_coord)),
            ElemView::Line(_) => ElemView::Line(Line { from_coord, end_coord }),
            ElemView::Rect(r) => ElemView::Rect(
                r.with_extent(Extent::between(from_coord, end_coord)),
            ),
            ElemView::Text(_, c) => ElemView::Text(Extent::between(from_coord, end_coord), c),
        }
    }

    /// The shape after a move by `end_coord - from_coord`; a move that would
    /// carry a point of the shape out of the world leaves it where it is.
    pub open spec fn moved(self, from_coord: Coordinate, end_coord: Coordinate) -> ElemView {
        match self {
            ElemView::Pen(s) => ElemView::Pen(stroke_moved(s, from_coord, end_coord)),
            ElemView::Line(l) => ElemView::Line(l.moved(from_coord, end_coord)),
            ElemView::Rect(r) => ElemView::Rect(
                r.with_extent(r.extent().moved(from_coord, end_coord)),
            ),
            ElemView::Text(e, c) => ElemView::Text(e.moved(from_coord, end_coord), c),
        }
    }

    /// The shape after the handle numbered `drag_vertex` was dragged to
    /// `end_coord`.
    pub open spec fn resized(
        self,
        from_coord: Coordinate,
        end_coord: Coordinate,
        drag_vertex: int,
    ) -> ElemView {
        match self {
            ElemView::Pen(s) => ElemView::Pen(
                stroke_resized(s, from_coord, end_coord, drag_vertex),
            ),
            ElemView::Line(l) => ElemView::Line(l.resized(end_coord, drag_vertex)),
            ElemView::Rect(r) => ElemView::Rect(
                r.with_extent(r.extent().resized(end_coord, drag_vertex)),
            ),
            ElemView::Text(e, c) => ElemView::Text(e.resized(end_coord, drag_vertex), c),
        }
    }
}

impl ElemView {
    /// The name of the kind of the shape.
    pub open spec fn kind(self) -> Seq<char> {
        match self {
            ElemView::Pen(_) => "pen"@,
            ElemView::Line(_) => "line"@,
            ElemView::Rect(_) => "rect"@,
            ElemView::Text(_, _) => "text"@,
        }
    }

    /// The text of the shape: its numbers between commas, and behind them,
    /// for a text box, its label.
    pub open spec fn fields(self) -> Seq<char> {
        match self {
            ElemView::Pen(s) => stroke_fields(s),
            ElemView::Line(l) => l.fields(),
            ElemView::Rect(r) => r.fields(),
            ElemView::Text(e, c) => Text::fields_of(e, c),
        }
    }

    /// The shape that a text stands for, read as a shape of the kind of this
    /// one.
    pub open spec fn parsed(self, s: Seq<char>) -> Option<ElemView> {
        match self {
            ElemView::Pen(_) => match stroke_parsed(s) {
                Some(points) => Some(ElemView::Pen(points)),
                None => None,
            },
            ElemView::Line(_) => match Line::parsed(s) {
                Some(l) => Some(ElemView::Line(l)),
                None => None,
            },
            ElemView::Rect(_) => match Rect::parsed(s) {
                Some(r) => Some(ElemView::Rect(r)),
                None => None,
            },
            ElemView::Text(_, _) => match Text::parsed(s) {
                Some((e, c)) => Some(ElemView::Text(e, c)),
                None => None,
            },
        }
    }

    /// The shape as its text keeps it: the geometry and the label, with the
    /// style of a new shape.
    pub open spec fn plain(self) -> ElemView {
        match self {
            ElemView::Rect(r) => ElemView::Rect(Rect::empty().with_extent(r.extent())),
            _ => self,
        }
    }
}

/// The text of a well-formed shape reads back as that shape, in the style of
/// a new one, whatever its label holds.
pub proof fn lemma_fields_read_back(e: ElemView)
    requires
        e.wf(),
    ensures
        e.parsed(e.fields()) == Some(e.plain()),
{
    match e {
        ElemView::Pen(s) => {
            let v = flat(s);
            assert(all_readable(v)) by {
                assert forall|i: int| 0 <= i < v.len() implies -NUMBER_MAX
                    <= #[trigger] v[i] <= NUMBER_MAX by {
                    assert(s[i / 2].in_world());
                }
            }
            lemma_all_numbers(v);
            assert(all_within_world(v)) by {
                assert forall|i: int| 0 <= i < v.len() implies within(
                    #[trigger] v[i],
                    WORLD_MAX as int,
                ) by {
                    assert(s[i / 2].in_world());
                }
            }
            assert(points_of(v) =~= s);
        },
        ElemView::Line(l) => {
            let v = seq![
                l.from_coord.x as int,
                l.from_coord.y as int,
                l.end_coord.x as int,
                l.end_coord.y as int,
            ];
            lemma_all_numbers(v);
        },
        ElemView::Rect(r) => {
            lemma_all_numbers(r.extent().numbers());
        },
        ElemView::Text(x, c) => {
            lemma_leading_numbers(x.numbers(), c);
        },
    }
}

/// A well-formed shape has two to four handles, all in the world.
pub proof fn lemma_vertices(e: ElemView)
    requires
        e.wf(),
    ensures
        2 <= e.vertices().len() <= 4,
        forall|i: int| 0 <= i < e.vertices().len() ==> (#[trigger] e.vertices()[i]).in_world(),
{
}

impl View for Elem {
    type V = ElemView;

    open spec fn view(&self) -> ElemView {
        match *self {
            Elem::Pen(p) => ElemView::Pen(p.coords@),
            Elem::Line(l) => ElemView::Line(l),
            Elem::Rect(r) => ElemView::Rect(r),
            Elem::Text(t) => ElemView::Text(t.extent(), t.content@),
        }
    }
}

impl Elem {
    /// Every point of the shape lies in the world.
    pub open spec fn wf(self) -> bool {
        self@.wf()
    }

    /// Whether the shape is well formed.
    pub fn is_valid(&self) -> (r: bool)
        ensures
            r == self.wf(),
    {
        match self {
            Elem::Pen(p) => p.is_valid(),
            Elem::Line(l) => l.is_valid(),
            Elem::Rect(r) => r.is_valid(),
            Elem::Text(t) => t.is_valid(),
        }
    }

    pub fn get_vertex(&self) -> (r: Vec<Coordinate>)
        requires
            self.wf(),
        ensures
            r@ == self@.vertices(),
    {
        match self {
            Elem::Pen(p) => p.get_vertex(),
            Elem::Line(l) => l.get_vertex(),
            Elem::Rect(r) => r.get_vertex(),
            Elem::Text(t) => t.get_vertex(),
        }
    }

    pub fn get_content(&self) -> (r: &str)
        ensures
            r@ == self@.content(),
    {
        match self {
            Elem::Text(t) => t.get_content(),
            _ => {
                proof {
                    reveal_strlit("");
                }
                assert(""@ =~= Seq::<char>::empty());
                ""
            },
        }
    }

    pub fn set_content(&mut self, content: &str)
        ensures
            final(self)@ == old(self)@.with_content(content@),
    {
        match self {
            Elem::Text(t) => t.set_content(content),
            _ => {},
        }
    }

    pub fn need_input(&self) -> (r: bool)
        ensures
            r == self@.need_input(),
    {
        match self {
            Elem::Text(t) => t.need_input(),
            _ => false,
        }
    }

    pub fn creating(&mut self, from_coord: Coordinate, end_coord: Coordinate)
        requires
            old(self).wf(),
            from_coord.in_world(),
            end_coord.in_world(),
        ensures
            final(self)@ == old(self)@.created(from_coord, end_coord),
            final(self).wf(),
    {
        match self {
            Elem::Pen(p) => p.creating(from_coord, end_coord),
            Elem::Line(l) => l.creating(from_coord, end_coord),
            Elem::Rect(r) => r.creating(from_coord, end_coord),
            Elem::Text(t) => t.creating(from_coord, end_coord),
        }
    }

    pub fn edit_moving(&mut self, from_coord: Coordinate, end_coord: Coordinate)
        requires
            old(self).wf(),
            from_coord.in_world(),
            end_coord.in_world(),
        ensures
            final(self)@ == old(self)@.moved(from_coord, end_coord),
            final(self).wf(),
    {
        match self {
            Elem::Pen(p) => p.edit_moving(from_coord, end_coord),
            Elem::Line(l) => l.edit_moving(from_coord, end_coord),
            Elem::Rect(r) => r.edit_moving(from_coord, end_coord),
            Elem::Text(t) => t.edit_moving(from_coord, end_coord),
        }
    }

    pub fn edit_resizing(&mut self, from_coord: Coordinate, end_coord: Coordinate, drag_vertex: i32)
        requires
            old(self).wf(),
            from_coord.in_world(),
            end_coord.in_world(),
        ensures
            final(self)@ == old(self)@.resized(from_coord, end_coord, drag_vertex as int),
            final(self).wf(),
    {
        match self {
            Elem::Pen(p) => p.edit_resizing(from_coord, end_coord, drag_vertex),
            Elem::Line(l) => l.edit_resizing(from_coord, end_coord, drag_vertex),
            Elem::Rect(r) => r.edit_resizing(from_coord, end_coord, drag_vertex),
            Elem::Text(t) => t.edit_resizing(from_coord, end_coord, drag_vertex),
        }
    }

    /// Draws the shape as its status asks.
    pub fn draw(&self, draw: &mut DrawWrap, status: Status)
        requires
            self.wf(),
            old(draw).viewport.wf(),
        ensures
            final(draw).viewport == old(draw).viewport,
            final(draw).drawn() == old(draw).drawn() + shown_all(
                old(draw).viewport,
                self@.drawing(status),
            ),
    {
        match self {
            Elem::Pen(p) => p.draw(draw, status),
            Elem::Line(l) => l.draw(draw, status),
            Elem::Rect(r) => r.draw(draw, status),
            Elem::Text(t) => t.draw(draw, status),
        }
    }

    /// The name of the kind of the shape.
    pub fn elem_type(&self) -> (r: String)
        ensures
            r@ == self@.kind(),
    {
        match self {
            Elem::Pen(p) => p.elem_type(),
            Elem::Line(l) => l.elem_type(),
            Elem::Rect(r) => r.elem_type(),
            Elem::Text(t) => t.elem_type(),
        }
    }

    /// The text of the shape.
    pub fn export(&self) -> (r: String)
        ensures
            r@ == self@.fields(),
    {
        match self {
            Elem::Pen(p) => p.export(),
            Elem::Line(l) => l.export(),
            Elem::Rect(r) => r.export(),
            Elem::Text(t) => t.export(),
        }
    }

    /// Reads a shape of the kind of this one from its text.
    pub fn import(&self, content: &str) -> (r: Option<Elem>)
        ensures
            match r {
                Some(e) => self@.parsed(content@) == Some(e@) && e.wf(),
                None => self@.parsed(content@) is None,
            },
    {
        match self {
            Elem::Pen(p) => match p.import(content) {
                Some(x) => Some(Elem::Pen(x)),
                None => None,
            },
            Elem::Line(l) => match l.import(content) {
                Some(x) => Some(Elem::Line(x)),
                None => None,
            },
            Elem::Rect(r) => match r.import(content) {
                Some(x) => Some(Elem::Rect(x)),
                None => None,
            },
            Elem::Text(t) => match t.import(content) {
                Some(x) => Some(Elem::Text(x)),
                None => None,
            },
        }
    }

    pub fn hover_condition(&self, mouse_point: Coordinate) -> (r: bool)
        requires
            self.wf(),
            mouse_point.in_world(),
        ensures
            r == self@.hit(mouse_point),
    {
        match self {
            Elem::Pen(p) => p.hover_condition(mouse_point),
            Elem::Line(l) => l.hover_condition(mouse_point),
            Elem::Rect(r) => r.hover_condition(mouse_point),
            Elem::Text(t) => t.hover_condition(mouse_point),
        }
    }
}

} // verus!

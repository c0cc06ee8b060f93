//! The text box: a box with a label, edited in place by the host.

use crate::binder::{DrawCmdView, DrawRectOpts, DrawTextOpts, DrawTextView};
use crate::codec::{as_ints, leading_numbers, read_leading_numbers};
use crate::coord::{floor_div, Coordinate};
use crate::decimal::{chars_of, NUMBER_MAX};
use crate::draw_wrap::{handles, shown_all, DrawWrap};
use crate::elem::{lemma_vertices, ElemView, Status};
use crate::elem::extent::Extent;
use crate::elem::rect::LineStyle;
use vstd::arithmetic::div_mod::lemma_fundamental_div_mod_converse;
use vstd::prelude::*;
use vstd::string::*;

verus! {

#[derive(Clone, Debug, PartialEq, Eq)]
pub struct Text {
    /// The corner the box is measured from: the top-left one unless a
    /// dimension is negative.
    pub lt_coord: Coordinate,
    pub width: i64,
    pub height: i64,
    pub content: String,
}

impl Default for Text {
    fn default() -> (t: Text)
        ensures
            t.extent() == (Extent { lt_coord: Coordinate { x: 0, y: 0 }, width: 0, height: 0 }),
            t.content@ == Seq::<char>::empty(),
            t.wf(),
    {
        Text { lt_coord: Coordinate { x: 0, y: 0 }, width: 0, height: 0, content: String::new() }
    }
}

/// How many line feeds `s` holds.
pub open spec fn line_feeds(s: Seq<char>) -> nat
    decreases s.len(),
{
    if s.len() == 0 {
        0
    } else {
        line_feeds(s.drop_last()) + if s.last() == '\n' { 1nat } else { 0nat }
    }
}

/// The number of lines of a text: one more than its line feeds.
pub open spec fn lines_of(s: Seq<char>) -> nat {
    line_feeds(s) + 1
}

/// A text has no more line feeds than characters.
pub proof fn lemma_line_feeds(s: Seq<char>)
    ensures
        line_feeds(s) <= s.len(),
    decreases s.len(),
{
    if s.len() > 0 {
        lemma_line_feeds(s.drop_last());
    }
}

/// Counts the lines of a text; a count beyond the machine's integers comes
/// out as the largest of them.
pub fn calc_string_lines(text: &str) -> (n: usize)
    ensures
        n == if lines_of(text@) <= usize::MAX {
            lines_of(text@)
        } else {
            usize::MAX as nat
        },
{
    let chars = chars_of(text);
    let len: usize = chars.len();
    let mut count: usize = 0;
    let mut i: usize = 0;
    assert(text@.subrange(0, 0) =~= Seq::<char>::empty());
    while i < len
        invariant
            i <= len,
            len == text@.len(),
            chars@ == text@,
            count == line_feeds(text@.subrange(0, i as int)),
            count <= i,
        decreases len - i,
    {
        assert(text@.subrange(0, i + 1).drop_last() =~= text@.subrange(0, i as int));
        if chars[i] == '\n' {
            count = count + 1;
        }
        i = i + 1;
    }
    assert(text@.subrange(0, len as int) =~= text@);
    if count < usize::MAX {
        count + 1
    } else {
        count
    }
}

/// The space left around the label, taken off the height of the box.
pub const TEXT_MARGIN: i64 = 10;

/// The size of the font that fits `lines` lines into a box `height` high:
/// the height without the margin, shared among the lines and rounded down.
pub open spec fn font_size(height: int, lines: nat) -> int {
    (height - TEXT_MARGIN) / (lines as int)
}

/// The frame of a text box: a solid red outline of width 3.
pub open spec fn text_frame(e: Extent) -> DrawCmdView {
    DrawCmdView::Rect(
        DrawRectOpts {
            left_top_coord: e.lt_coord,
            width: e.width,
            height: e.height,
            line_size: 3,
            line_color: 0xff0000,
            fill_color: None,
            line_style: LineStyle::Solid,
        },
    )
}

/// The label of a text box, in black, as large as its lines allow.
pub open spec fn text_label(e: Extent, content: Seq<char>) -> DrawCmdView {
    DrawCmdView::Text(
        DrawTextView {
            left_top_coord: e.lt_coord,
            width: e.width,
            height: e.height,
            content,
            font_size: font_size(e.height as int, lines_of(content)) as i64,
            font_space: 0,
            font_color: 0,
        },
    )
}

/// The calls that draw a text box, in world coordinates: the label; about it
/// the frame, unless the box is at rest; and a dot on each corner when
/// hovered or resized.
pub open spec fn text_drawing(e: Extent, content: Seq<char>, status: Status) -> Seq<DrawCmdView> {
    match status {
        Status::Default => seq![text_label(e, content)],
        Status::Creating => seq![text_frame(e), text_label(e, content)],
        _ => seq![text_frame(e), text_label(e, content)] + handles(
            e.vertices(),
            5,
            0,
            0xff0000,
            0,
        ),
    }
}

impl Text {
    /// The calls that draw the text box, in world coordinates.
    pub open spec fn drawing(self, status: Status) -> Seq<DrawCmdView> {
        text_drawing(self.extent(), self.content@, status)
    }

    /// The size of the font of the label.
    fn label_size(&self) -> (r: i64)
        requires
            self.wf(),
        ensures
            r == font_size(self.height as int, lines_of(self.content@)),
            -410_000_000 <= r <= 410_000_000,
    {
        let lines: usize = calc_string_lines(self.content.as_str());
        let room: i64 = self.height - TEXT_MARGIN;
        proof {
            lemma_line_feeds(self.content@);
        }
        if lines > 1_000_000_000 {
            let ghost n = lines_of(self.content@) as int;
            if room >= 0 {
                proof {
                    lemma_fundamental_div_mod_converse(room as int, n, 0, room as int);
                }
                0
            } else {
                proof {
                    lemma_fundamental_div_mod_converse(room as int, n, -1, room + n);
                }
                -1
            }
        } else {
            let r = floor_div(room, lines as i64);
            assert(-410_000_000 <= r <= 410_000_000) by (nonlinear_arith)
                requires
                    r == room as int / (lines as int),
                    -410_000_000 <= room <= 410_000_000,
                    1 <= lines,
            ;
            r
        }
    }

    fn draw_frame(&self, draw: &mut DrawWrap)
        requires
            self.wf(),
            old(draw).viewport.wf(),
        ensures
            final(draw).viewport == old(draw).viewport,
            final(draw).drawn() == old(draw).drawn() + shown_all(
                old(draw).viewport,
                seq![text_frame(self.extent())],
            ),
    {
        let ghost v = draw.viewport;
        let ghost before = draw.drawn();
        draw.draw_rect(
            DrawRectOpts {
                left_top_coord: self.lt_coord,
                width: self.width,
                height: self.height,
                line_size: 3,
                line_color: 0xff0000,
                fill_color: None,
                line_style: LineStyle::Solid,
            },
        );
        assert(draw.drawn() =~= before + shown_all(v, seq![text_frame(self.extent())]));
    }

    fn draw_label(&self, draw: &mut DrawWrap)
        requires
            self.wf(),
            old(draw).viewport.wf(),
        ensures
            final(draw).viewport == old(draw).viewport,
            final(draw).drawn() == old(draw).drawn() + shown_all(
                old(draw).viewport,
                seq![text_label(self.extent(), self.content@)],
            ),
    {
        let ghost v = draw.viewport;
        let ghost before = draw.drawn();
        draw.draw_text(
            DrawTextOpts {
                left_top_coord: self.lt_coord,
                width: self.width,
                height: self.height,
                content: self.content.clone(),
                font_size: self.label_size(),
                font_space: 0,
                font_color: 0,
            },
        );
        assert(draw.drawn() =~= before + shown_all(
            v,
            seq![text_label(self.extent(), self.content@)],
        ));
    }

    pub fn draw(&self, draw: &mut DrawWrap, status: Status)
        requires
            self.wf(),
            old(draw).viewport.wf(),
        ensures
            final(draw).viewport == old(draw).viewport,
            final(draw).drawn() == old(draw).drawn() + shown_all(
                old(draw).viewport,
                self.drawing(status),
            ),
    {
        let ghost v = draw.viewport;
        let ghost before = draw.drawn();
        proof {
            lemma_vertices(ElemView::Text(self.extent(), self.content@));
        }
        match status {
            Status::Default => {
                self.draw_label(draw);
            },
            Status::Creating => {
                self.draw_frame(draw);
                self.draw_label(draw);
            },
            _ => {
                self.draw_frame(draw);
                self.draw_label(draw);
                draw.draw_handles(&self.get_vertex(), 5, 0, 0xff0000, 0);
            },
        }
        assert(draw.drawn() =~= before + shown_all(v, self.drawing(status)));
    }

    /// Whether the text box is well formed.
    pub fn is_valid(&self) -> (r: bool)
        ensures
            r == self.wf(),
    {
        self.get_extent().is_valid()
    }

    /// Where the box is and how large.
    pub open spec fn extent(self) -> Extent {
        Extent { lt_coord: self.lt_coord, width: self.width, height: self.height }
    }

    /// Every corner lies in the world.
    pub open spec fn wf(self) -> bool {
        self.extent().wf()
    }

    /// The corners: top-left, top-right, bottom-right, bottom-left.
    pub open spec fn vertices(self) -> Seq<Coordinate> {
        self.extent().vertices()
    }

    /// Whether a point touches the box: it lies in the box or closer than
    /// the hit tolerance to a corner.
    pub open spec fn hit(self, p: Coordinate) -> bool {
        self.extent().hit(p)
    }

    fn get_extent(&self) -> (e: Extent)
        ensures
            e == self.extent(),
    {
        Extent { lt_coord: self.lt_coord, width: self.width, height: self.height }
    }

    fn set_extent(&mut self, e: Extent)
        ensures
            final(self).extent() == e,
            final(self).content == old(self).content,
    {
        self.lt_coord = e.lt_coord;
        self.width = e.width;
        self.height = e.height;
    }

    pub fn get_vertex(&self) -> (r: Vec<Coordinate>)
        requires
            self.wf(),
        ensures
            r@ == self.vertices(),
    {
        self.get_extent().get_vertex()
    }

    pub fn need_input(&self) -> (r: bool)
        ensures
            r,
    {
        true
    }

    pub fn get_content(&self) -> (r: &str)
        ensures
            r@ == self.content@,
    {
        self.content.as_str()
    }

    pub fn set_content(&mut self, content: &str)
        ensures
            final(self).content@ == content@,
            final(self).extent() == old(self).extent(),
    {
        self.content = content.to_owned();
    }

    /// Spans the box between the two points, whichever way it was dragged.
    pub fn creating(&mut self, from_coord: Coordinate, end_coord: Coordinate)
        requires
            from_coord.in_world(),
            end_coord.in_world(),
        ensures
            final(self).extent() == Extent::between(from_coord, end_coord),
            final(self).content == old(self).content,
            final(self).wf(),
    {
        self.set_extent(Extent::creating(from_coord, end_coord));
    }

    /// Shifts the box by `end_coord - from_coord`, unless that would carry a
    /// corner out of the world.
    pub fn edit_moving(&mut self, from_coord: Coordinate, end_coord: Coordinate)
        requires
            old(self).wf(),
            from_coord.in_world(),
            end_coord.in_world(),
        ensures
            final(self).extent() == old(self).extent().moved(from_coord, end_coord),
            final(self).content == old(self).content,
            final(self).wf(),
    {
        let e = self.get_extent().edit_moving(from_coord, end_coord);
        self.set_extent(e);
    }

    /// Drags corner `drag_vertex` to `end_coord`.
    pub fn edit_resizing(&mut self, from_coord: Coordinate, end_coord: Coordinate, drag_vertex: i32)
        requires
            old(self).wf(),
            end_coord.in_world(),
        ensures
            final(self).extent() == old(self).extent().resized(end_coord, drag_vertex as int),
            final(self).content == old(self).content,
            final(self).wf(),
    {
        let e = self.get_extent().edit_resizing(end_coord, drag_vertex);
        self.set_extent(e);
    }

    /// The text of a text box: the text of its extent, a comma and the
    /// label.
    pub open spec fn fields_of(e: Extent, content: Seq<char>) -> Seq<char> {
        e.fields() + seq![','] + content
    }

    /// The text of the text box.
    pub open spec fn fields(self) -> Seq<char> {
        Text::fields_of(self.extent(), self.content@)
    }

    /// The extent and the label that a text stands for: four numbers, each
    /// with a comma behind it, which give an extent in the world, and behind
    /// them the label, whatever it holds.
    pub open spec fn parsed(s: Seq<char>) -> Option<(Extent, Seq<char>)> {
        match leading_numbers(s, 4) {
            Some((v, label)) => match Extent::of_numbers(v) {
                Some(e) => Some((e, label)),
                None => None,
            },
            None => None,
        }
    }

    pub fn elem_type(&self) -> (r: String)
        ensures
            r@ == "text"@,
    {
        "text".to_owned()
    }

    pub fn export(&self) -> (r: String)
        ensures
            r@ == self.fields(),
    {
        let mut out = String::new();
        self.get_extent().export_to(&mut out);
        proof {
            reveal_strlit(",");
        }
        assert(","@ =~= seq![',']);
        out.append(",");
        out.append(self.content.as_str());
        assert(out@ =~= self.fields());
        out
    }

    /// Reads a text box from its text.
    pub fn import(&self, content: &str) -> (r: Option<Text>)
        ensures
            match r {
                Some(t) => Text::parsed(content@) == Some((t.extent(), t.content@)) && t.wf(),
                None => Text::parsed(content@) is None,
            },
    {
        let chars = chars_of(content);
        assert(chars@.subrange(0, chars@.len() as int) =~= content@);
        match read_leading_numbers(&chars, 0, chars.len(), 4) {
            Some((v, next)) => {
                assert forall|i: int| 0 <= i < v@.len() implies -NUMBER_MAX <= #[trigger] v@[i]
                    <= NUMBER_MAX by {
                    assert(as_ints(v@)[i] == v@[i]);
                }
                match Extent::from_numbers(&v) {
                    Some(e) => {
                        let label = content.substring_char(next, chars.len());
                        Some(
                            Text {
                                lt_coord: e.lt_coord,
                                width: e.width,
                                height: e.height,
                                content: label.to_owned(),
                            },
                        )
                    },
                    None => None,
                }
            },
            None => None,
        }
    }

    pub fn hover_condition(&self, mouse_point: Coordinate) -> (r: bool)
        requires
            self.wf(),
            mouse_point.in_world(),
        ensures
            r == self.hit(mouse_point),
    {
        self.get_extent().hover_condition(mouse_point)
    }
}

} // verus!

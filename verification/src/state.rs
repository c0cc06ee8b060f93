//! The panel as a value, and what each event makes of it.
//!
//! `PanelState` is what a panel is; `step` gives the state after an event
//! and the calls that the host is asked to make. The executable panel is
//! held to these.

use crate::binder::{DrawCmdView, DrawRectOpts, EventRect, EventType, EventZoom, HookCall};
use crate::coord::{clamped, near, Coordinate, WORLD_MAX};
use crate::draw_wrap::{is_size, shown_all};
use crate::drawpanel::ModeView;
use crate::elem::{ElemView, Status};
use crate::elem::extent::Extent;
use crate::elem::rect::{LineStyle, Rect};
use crate::geometry::in_box;
use crate::viewport::{scaled, Viewport};
use vstd::prelude::*;

verus! {

/// The number of handles that a shape can have.
pub const HANDLES: u8 = 4;

/// The scale changes by this much with one zoom event.
pub const ZOOM_STEP: i64 = 1;

/// What a panel is, between two events.
pub struct PanelState {
    /// The device point that the panel was made at.
    pub raw_lt_coord: Coordinate,
    pub width: i64,
    pub height: i64,
    pub viewport: Viewport,
    /// The shapes, the lowest first.
    pub elems: Seq<ElemView>,
    /// The topmost shape under the pointer.
    pub hover_index: Option<usize>,
    /// The handle that a resize drags.
    pub drag_vertex: Option<u8>,
    /// The shape whose text the host edits.
    pub edit_index: Option<usize>,
    pub mode: ModeView,
    /// The world point of the last press or move drag.
    pub prev_coord: Coordinate,
    /// The device point of the last press or move drag.
    pub raw_prev_coord: Coordinate,
    /// The marquee.
    pub select_box: Option<Rect>,
    /// The indices of the selected shapes, ascending.
    pub selects: Seq<usize>,
    /// One prototype for each kind that `import` accepts.
    pub registry: Seq<ElemView>,
}

/// Whether every shape of `s` is well formed.
pub open spec fn all_wf(s: Seq<ElemView>) -> bool {
    forall|i: int| 0 <= i < s.len() ==> (#[trigger] s[i]).wf()
}

/// Whether `s` ascends strictly and stays below `len`.
pub open spec fn ascending_below(s: Seq<usize>, len: int) -> bool {
    &&& forall|i: int, j: int| 0 <= i < j < s.len() ==> s[i] < s[j]
    &&& forall|i: int| 0 <= i < s.len() ==> (#[trigger] s[i]) < len
}

/// Without its last index, a list that ascends below `len` ascends below
/// `len - 1`, and below that last index.
pub proof fn lemma_ascending_prefix(s: Seq<usize>, len: int)
    requires
        ascending_below(s, len),
        s.len() > 0,
    ensures
        ascending_below(s.drop_last(), len - 1),
        ascending_below(s.drop_last(), s.last() as int),
        s.last() < len,
{
    let t = s.drop_last();
    assert forall|i: int| 0 <= i < t.len() implies (#[trigger] t[i]) < s.last() by {
        assert(s[i] < s[s.len() - 1]);
    }
    assert forall|i: int, j: int| 0 <= i < j < t.len() implies t[i] < t[j] by {
        assert(s[i] < s[j]);
    }
}

/// The topmost shape that `p` touches: the last of the list that it does.
pub open spec fn topmost_hit(elems: Seq<ElemView>, p: Coordinate) -> Option<usize>
    decreases elems.len(),
{
    if elems.len() == 0 {
        None
    } else if elems.last().hit(p) {
        Some((elems.len() - 1) as usize)
    } else {
        topmost_hit(elems.drop_last(), p)
    }
}

/// The topmost shape that a point touches is a shape of the list that the
/// point touches, and the point touches none above it; there is none only if
/// the point touches no shape.
pub proof fn lemma_topmost_hit(elems: Seq<ElemView>, p: Coordinate)
    requires
        elems.len() <= usize::MAX,
    ensures
        match topmost_hit(elems, p) {
            Some(h) => {
                &&& h < elems.len()
                &&& elems[h as int].hit(p)
                &&& forall|j: int| h < j < elems.len() ==> !(#[trigger] elems[j]).hit(p)
            },
            None => forall|j: int| 0 <= j < elems.len() ==> !(#[trigger] elems[j]).hit(p),
        },
    decreases elems.len(),
{
    if elems.len() > 0 && !elems.last().hit(p) {
        let rest = elems.drop_last();
        lemma_topmost_hit(rest, p);
        match topmost_hit(rest, p) {
            Some(h) => {
                assert(rest[h as int] == elems[h as int]);
                assert forall|j: int| h < j < elems.len() implies !(#[trigger] elems[j]).hit(p) by {
                    if j < elems.len() - 1 {
                        assert(rest[j] == elems[j]);
                    }
                }
            },
            None => {
                assert forall|j: int| 0 <= j < elems.len() implies !(#[trigger] elems[j]).hit(
                    p,
                ) by {
                    if j < elems.len() - 1 {
                        assert(rest[j] == elems[j]);
                    }
                }
            },
        }
    }
}

/// The handle that a press at `p` grabs: the last of `vertices` that is
/// closer to `p` than the hit tolerance.
pub open spec fn grabbed_vertex(vertices: Seq<Coordinate>, p: Coordinate) -> Option<u8>
    decreases vertices.len(),
{
    if vertices.len() == 0 {
        None
    } else if near(p, vertices.last()) {
        Some((vertices.len() - 1) as u8)
    } else {
        grabbed_vertex(vertices.drop_last(), p)
    }
}

/// The corner opposite the first of `vertices`: the third of four, the last
/// of fewer.
pub open spec fn opposite(vertices: Seq<Coordinate>) -> Coordinate {
    if vertices.len() > 2 {
        vertices[2]
    } else {
        vertices.last()
    }
}

/// The box on the device that a shape with the given handles covers.
pub open spec fn event_rect(viewport: Viewport, vertices: Seq<Coordinate>) -> EventRect {
    EventRect {
        coord: viewport.to_device(vertices[0]),
        width: scaled(viewport.scale as int, opposite(vertices).x - vertices[0].x) as i64,
        height: scaled(viewport.scale as int, opposite(vertices).y - vertices[0].y) as i64,
    }
}

/// Whether `p` lies in the box of the marquee, edges included.
pub open spec fn in_marquee(marquee: Rect, p: Coordinate) -> bool {
    in_box(marquee.vertices()[0], marquee.vertices()[2], p)
}

/// Whether every handle of a shape lies in the box of the marquee.
pub open spec fn enclosed(marquee: Rect, shape: ElemView) -> bool {
    forall|i: int|
        0 <= i < shape.vertices().len() ==> in_marquee(marquee, #[trigger] shape.vertices()[i])
}

/// The indices below `n`, ascending, of the shapes that `selects` holds or
/// that the marquee encloses.
pub open spec fn selected_below(
    elems: Seq<ElemView>,
    selects: Seq<usize>,
    marquee: Rect,
    n: nat,
) -> Seq<usize>
    decreases n,
{
    if n == 0 {
        Seq::empty()
    } else {
        let rest = selected_below(elems, selects, marquee, (n - 1) as nat);
        if selects.contains((n - 1) as usize) || enclosed(marquee, elems[n - 1]) {
            rest.push((n - 1) as usize)
        } else {
            rest
        }
    }
}

/// The marquee selects what it encloses and nothing else: after a release,
/// the selection ascends, and holds exactly the indices of the shapes that
/// were selected before or have every handle in the box of the marquee.
pub proof fn law_selection(elems: Seq<ElemView>, selects: Seq<usize>, marquee: Rect, n: nat)
    requires
        n <= elems.len() <= usize::MAX,
    ensures
        ascending_below(selected_below(elems, selects, marquee, n), n as int),
        forall|i: usize| #[trigger]
            selected_below(elems, selects, marquee, n).contains(i) <==> i < n && (selects.contains(
                i,
            ) || enclosed(marquee, elems[i as int])),
    decreases n,
{
    if n > 0 {
        let rest = selected_below(elems, selects, marquee, (n - 1) as nat);
        let all = selected_below(elems, selects, marquee, n);
        let last = (n - 1) as usize;
        law_selection(elems, selects, marquee, (n - 1) as nat);
        if selects.contains(last) || enclosed(marquee, elems[n - 1]) {
            assert(all == rest.push(last));
            assert(all[rest.len() as int] == last);
            assert forall|i: usize| #[trigger] all.contains(i) <==> i < n && (selects.contains(i)
                || enclosed(marquee, elems[i as int])) by {
                if all.contains(i) {
                    let j = choose|j: int| 0 <= j < all.len() && all[j] == i;
                    if j < rest.len() {
                        assert(rest[j] == i);
                        assert(rest.contains(i));
                    }
                }
                if rest.contains(i) {
                    let j = choose|j: int| 0 <= j < rest.len() && rest[j] == i;
                    assert(all[j] == i);
                }
            }
            assert forall|i: int, j: int| 0 <= i < j < all.len() implies all[i] < all[j] by {
                if j < rest.len() {
                    assert(rest[i] < rest[j]);
                } else {
                    assert(rest[i] < n - 1);
                }
            }
        }
    }
}

/// `elems` without the shapes at the indices `selects`, taken out from the
/// highest index down.
pub open spec fn without(elems: Seq<ElemView>, selects: Seq<usize>) -> Seq<ElemView>
    decreases selects.len(),
{
    if selects.len() == 0 {
        elems
    } else {
        without(elems.remove(selects.last() as int), selects.drop_last())
    }
}

/// The first `n` shapes of `elems` but those at the indices `selects`, in
/// their order.
pub open spec fn kept_below(elems: Seq<ElemView>, selects: Seq<usize>, n: nat) -> Seq<ElemView>
    decreases n,
{
    if n == 0 {
        Seq::empty()
    } else if selects.contains((n - 1) as usize) {
        kept_below(elems, selects, (n - 1) as nat)
    } else {
        kept_below(elems, selects, (n - 1) as nat).push(elems[n - 1])
    }
}

/// What is kept of the first `n` shapes does not depend on the shapes from
/// `n` on, nor on the indices from `n` on.
pub proof fn lemma_kept_prefix(
    a: Seq<ElemView>,
    sa: Seq<usize>,
    b: Seq<ElemView>,
    sb: Seq<usize>,
    n: nat,
)
    requires
        n <= a.len(),
        n <= b.len(),
        n <= usize::MAX,
        forall|i: int| 0 <= i < n ==> a[i] == b[i],
        forall|i: usize| i < n ==> #[trigger] sa.contains(i) == sb.contains(i),
    ensures
        kept_below(a, sa, n) == kept_below(b, sb, n),
    decreases n,
{
    if n > 0 {
        lemma_kept_prefix(a, sa, b, sb, (n - 1) as nat);
        assert(sa.contains((n - 1) as usize) == sb.contains((n - 1) as usize));
    }
}

/// Where no index from `k` on is selected and the shape at `k` is taken
/// out, what is kept of the first `n` of the shorter list is what was kept of
/// the first `n + 1` of the longer one with `k` selected too.
pub proof fn lemma_kept_without(elems: Seq<ElemView>, selects: Seq<usize>, k: usize, n: nat)
    requires
        k < elems.len() <= usize::MAX,
        k <= n < elems.len(),
        forall|i: int| 0 <= i < selects.len() ==> selects[i] < k,
    ensures
        kept_below(elems.remove(k as int), selects, n) == kept_below(
            elems,
            selects.push(k),
            (n + 1) as nat,
        ),
    decreases n,
{
    let short = elems.remove(k as int);
    let more = selects.push(k);
    assert(more[selects.len() as int] == k);
    if n == k {
        assert(more.contains(k));
        assert forall|i: usize| i < n implies #[trigger] selects.contains(i) == more.contains(
            i,
        ) by {
            if more.contains(i) {
                let j = choose|j: int| 0 <= j < more.len() && more[j] == i;
                assert(j < selects.len());
                assert(selects[j] == i);
            }
            if selects.contains(i) {
                let j = choose|j: int| 0 <= j < selects.len() && selects[j] == i;
                assert(more[j] == i);
            }
        }
        lemma_kept_prefix(short, selects, elems, more, n);
    } else {
        lemma_kept_without(elems, selects, k, (n - 1) as nat);
        assert(!selects.contains((n - 1) as usize)) by {
            if selects.contains((n - 1) as usize) {
                let j = choose|j: int| 0 <= j < selects.len() && selects[j] == (n - 1) as usize;
                assert(selects[j] < k);
            }
        }
        assert(!more.contains(n as usize)) by {
            if more.contains(n as usize) {
                let j = choose|j: int| 0 <= j < more.len() && more[j] == n as usize;
                if j < selects.len() {
                    assert(selects[j] < k);
                }
            }
        }
        assert(short[n - 1] == elems[n as int]);
    }
}

/// Deleting a selection takes out exactly the selected shapes: what is left
/// of a list without the shapes at ascending indices are its other shapes in
/// their order, as many fewer as there were indices.
pub proof fn law_deletion(elems: Seq<ElemView>, selects: Seq<usize>)
    requires
        elems.len() <= usize::MAX,
        ascending_below(selects, elems.len() as int),
    ensures
        without(elems, selects) == kept_below(elems, selects, elems.len()),
        without(elems, selects).len() == elems.len() - selects.len(),
    decreases selects.len(),
{
    if selects.len() == 0 {
        lemma_kept_none(elems, selects, elems.len());
    } else {
        let k = selects.last();
        let rest = selects.drop_last();
        lemma_ascending_prefix(selects, elems.len() as int);
        law_deletion(elems.remove(k as int), rest);
        lemma_kept_without(elems, rest, k, (elems.len() - 1) as nat);
        assert(rest.push(k) =~= selects);
    }
}

/// With nothing selected, all of the first `n` shapes are kept.
pub proof fn lemma_kept_none(elems: Seq<ElemView>, selects: Seq<usize>, n: nat)
    requires
        selects.len() == 0,
        n <= elems.len(),
    ensures
        kept_below(elems, selects, n) == elems.subrange(0, n as int),
    decreases n,
{
    if n > 0 {
        lemma_kept_none(elems, selects, (n - 1) as nat);
        assert(elems.subrange(0, n - 1).push(elems[n - 1]) =~= elems.subrange(0, n as int));
    } else {
        assert(elems.subrange(0, 0) =~= Seq::<ElemView>::empty());
    }
}

/// The marquee as a press in `Select` mode makes it: empty, with a dotted
/// black outline of width 1.
pub open spec fn fresh_marquee() -> Rect {
    Rect { line_color: 0, line_size: 1, line_style: LineStyle::Dotted, ..Rect::empty() }
}

/// `elems` with every shape at an index of `selects` moved by
/// `end_coord - from_coord`.
pub open spec fn moved_selection(
    elems: Seq<ElemView>,
    selects: Seq<usize>,
    from_coord: Coordinate,
    end_coord: Coordinate,
) -> Seq<ElemView> {
    Seq::new(
        elems.len(),
        |i: int|
            if selects.contains(i as usize) {
                elems[i].moved(from_coord, end_coord)
            } else {
                elems[i]
            },
    )
}

impl PanelState {
    /// An empty panel in `EditMoving`, at scale `SCALE_UNIT`, made at the
    /// device point `(x, y)`, where its world origin shows. A width or a
    /// height beyond twice the side of the world is cut to that.
    pub open spec fn initial(
        x: i64,
        y: i64,
        w: i64,
        h: i64,
        registry: Seq<ElemView>,
    ) -> PanelState {
        PanelState {
            raw_lt_coord: Coordinate { x, y },
            width: clamped(w as int, 4 * WORLD_MAX) as i64,
            height: clamped(h as int, 4 * WORLD_MAX) as i64,
            viewport: Viewport::at(x as int, y as int),
            elems: Seq::empty(),
            hover_index: None,
            drag_vertex: None,
            edit_index: None,
            mode: ModeView::EditMoving,
            prev_coord: Coordinate { x: 0, y: 0 },
            raw_prev_coord: Coordinate { x: 0, y: 0 },
            select_box: None,
            selects: Seq::empty(),
            registry,
        }
    }

    /// How the shape at index `i` is shown: the hovered one as hovered, or
    /// as resized during a resize; every shape as being created while one
    /// is; a selected one as hovered.
    pub open spec fn status_of(self, i: int) -> Status {
        if self.hover_index == Some(i as usize) {
            match self.mode {
                ModeView::EditResizing(v) => Status::Resizing(v),
                _ => Status::Hover,
            }
        } else if self.mode is Creating {
            Status::Creating
        } else if self.selects.contains(i as usize) {
            Status::Hover
        } else {
            Status::Default
        }
    }

    /// The calls that draw the first `n` shapes, the lowest first, in world
    /// coordinates.
    pub open spec fn elems_drawing(self, n: nat) -> Seq<DrawCmdView>
        decreases n,
    {
        if n == 0 {
            Seq::empty()
        } else {
            self.elems_drawing((n - 1) as nat) + self.elems[n - 1].drawing(self.status_of(n - 1))
        }
    }

    /// The white sheet under the shapes, in world coordinates.
    pub open spec fn sheet(self) -> DrawCmdView {
        DrawCmdView::Rect(
            DrawRectOpts {
                left_top_coord: Coordinate { x: 0, y: 0 },
                width: self.width,
                height: self.height,
                line_size: 0,
                line_color: 0xffffff,
                fill_color: Some(0xffffff),
                line_style: LineStyle::Solid,
            },
        )
    }

    /// The calls that draw the panel, as the renderer gets them: the sheet,
    /// the shapes from the lowest up, and the marquee on top.
    pub open spec fn frame(self) -> Seq<DrawCmdView> {
        shown_all(
            self.viewport,
            seq![self.sheet()] + self.elems_drawing(self.elems.len()) + match self.select_box {
                Some(b) => b.drawing(Status::Creating),
                None => Seq::empty(),
            },
        )
    }

    /// What holds of a panel between any two events.
    pub open spec fn wf(self) -> bool {
        &&& self.viewport.wf()
        &&& is_size(self.width as int)
        &&& is_size(self.height as int)
        &&& all_wf(self.elems)
        &&& all_wf(self.registry)
        &&& self.prev_coord.in_world()
        &&& (self.hover_index matches Some(h) ==> h < self.elems.len())
        &&& ascending_below(self.selects, self.elems.len() as int)
        &&& (self.select_box matches Some(b) ==> b.wf())
        &&& (self.selects.len() > 0 ==> self.select_box is Some)
        &&& (self.edit_index matches Some(e) ==> e < self.elems.len())
        &&& (self.mode is EditState <==> self.edit_index is Some)
        &&& match self.mode {
            ModeView::Creating(Some(e)) => e.wf() && self.drag_vertex is None,
            ModeView::Creating(None) => self.elems.len() >= 1 && self.drag_vertex is None,
            ModeView::EditResizing(v) => v < HANDLES && self.drag_vertex == Some(v),
            _ => self.drag_vertex is None,
        }
    }

    /// Whether the panel can be put into `mode`: a prototype is well formed;
    /// a creation under way, or the editing of a text, has a shape to speak
    /// of; a resize names a handle.
    pub open spec fn admits(self, mode: ModeView) -> bool {
        match mode {
            ModeView::Creating(Some(e)) => e.wf(),
            ModeView::Creating(None) => self.elems.len() >= 1,
            ModeView::EditResizing(v) => v < HANDLES,
            ModeView::EditState => self.elems.len() >= 1,
            _ => true,
        }
    }

    /// The state after the host asked for `mode`: a mode that the panel
    /// admits is taken, any other gives `EditMoving`. A resize drags the
    /// handle that it names, and an editing of text is that of the last shape.
    pub open spec fn with_mode(self, mode: ModeView) -> PanelState {
        if self.admits(mode) {
            PanelState {
                mode,
                drag_vertex: match mode {
                    ModeView::EditResizing(v) => Some(v),
                    _ => None,
                },
                edit_index: match mode {
                    ModeView::EditState => Some((self.elems.len() - 1) as usize),
                    _ => None,
                },
                ..self
            }
        } else {
            PanelState { mode: ModeView::EditMoving, drag_vertex: None, edit_index: None, ..self }
        }
    }

    /// The state after the list of shapes was replaced by `elems`: nothing
    /// is hovered, dragged, edited or selected any more, and a mode that
    /// spoke of a shape of the old list gives way to `EditMoving`.
    pub open spec fn replaced(self, elems: Seq<ElemView>) -> PanelState {
        PanelState {
            elems,
            hover_index: None,
            drag_vertex: None,
            edit_index: None,
            select_box: None,
            selects: Seq::empty(),
            mode: match self.mode {
                ModeView::Creating(None) => ModeView::EditMoving,
                ModeView::EditResizing(_) => ModeView::EditMoving,
                ModeView::EditState => ModeView::EditMoving,
                _ => self.mode,
            },
            ..self
        }
    }

    /// The state after the pointer moved to the world point `p`: the hover is
    /// looked up again, unless a text is being edited.
    pub open spec fn on_move(self, p: Coordinate) -> PanelState {
        if self.mode is EditState {
            self
        } else {
            PanelState { hover_index: topmost_hit(self.elems, p), ..self }
        }
    }

    /// The state after a press in `EditMoving`: a handle of the hovered shape
    /// near `p` starts a resize, and a press outside the marquee drops the
    /// selection.
    pub open spec fn on_push_moving(self, p: Coordinate) -> PanelState {
        let grabbed = match self.hover_index {
            Some(h) => grabbed_vertex(self.elems[h as int].vertices(), p),
            None => None,
        };
        let s = match grabbed {
            Some(v) => PanelState { mode: ModeView::EditResizing(v), drag_vertex: Some(v), ..self },
            None => self,
        };
        match self.select_box {
            Some(b) => if in_marquee(b, p) {
                s
            } else {
                PanelState { selects: Seq::empty(), select_box: None, ..s }
            },
            None => s,
        }
    }

    /// The state after a press in `Deleting`, and whether the host is asked
    /// to repaint at once: the hovered shape goes; with none hovered, a press
    /// on the marquee takes the selected shapes out.
    pub open spec fn on_push_deleting(self, p: Coordinate) -> (PanelState, bool) {
        match self.hover_index {
            Some(h) => (
                PanelState {
                    elems: self.elems.remove(h as int),
                    hover_index: None,
                    selects: Seq::empty(),
                    select_box: None,
                    ..self
                },
                false,
            ),
            None => match self.select_box {
                Some(b) => if b.hit(p) {
                    (
                        PanelState {
                            elems: without(self.elems, self.selects),
                            selects: Seq::empty(),
                            select_box: None,
                            ..self
                        },
                        true,
                    )
                } else {
                    (self, false)
                },
                None => (self, false),
            },
        }
    }

    /// The state after a press at the device point `inp`, over the world
    /// point `p`, and the calls it asks for.
    pub open spec fn on_push(self, inp: Coordinate, p: Coordinate) -> (PanelState, Seq<HookCall>) {
        let s = PanelState { prev_coord: p, raw_prev_coord: inp, ..self };
        let last = (self.elems.len() - 1) as usize;
        match self.mode {
            ModeView::EditMoving => (s.on_push_moving(p), seq![]),
            ModeView::Creating(Some(e)) => (
                PanelState { elems: self.elems.push(e), mode: ModeView::Creating(None), ..s },
                seq![HookCall::BeginCreate { index: self.elems.len() as usize, mouse_coord: p }],
            ),
            ModeView::Creating(None) => (
                PanelState { mode: ModeView::EditMoving, ..s },
                seq![HookCall::EndCreate { index: last, mouse_coord: p }],
            ),
            ModeView::EditResizing(_) => (s, seq![]),
            ModeView::Deleting => (
                s.on_push_deleting(p).0,
                if s.on_push_deleting(p).1 {
                    seq![HookCall::Flush]
                } else {
                    seq![]
                },
            ),
            ModeView::EditState => (
                PanelState { mode: ModeView::EditMoving, edit_index: None, ..s },
                seq![HookCall::EndEditState { index: self.edit_index.unwrap(), mouse_coord: p }],
            ),
            ModeView::Select => (
                PanelState { selects: Seq::empty(), select_box: Some(fresh_marquee()), ..s },
                seq![],
            ),
        }
    }

    /// The state after a release over the world point `p`, and the calls it
    /// asks for.
    pub open spec fn on_released(self, p: Coordinate) -> (PanelState, Seq<HookCall>) {
        let last = (self.elems.len() - 1) as usize;
        match self.mode {
            ModeView::Creating(None) => if self.elems.last().need_input() {
                (
                    PanelState { mode: ModeView::EditState, edit_index: Some(last), ..self },
                    seq![
                        HookCall::EndCreate { index: last, mouse_coord: p },
                        HookCall::BeginEditState {
                            index: last,
                            event_rect: event_rect(self.viewport, self.elems.last().vertices()),
                        },
                    ],
                )
            } else {
                (self, seq![])
            },
            ModeView::EditResizing(_) => (
                PanelState { mode: ModeView::EditMoving, drag_vertex: None, ..self },
                seq![],
            ),
            ModeView::Select => (
                PanelState {
                    mode: ModeView::EditMoving,
                    selects: match self.select_box {
                        Some(b) => selected_below(self.elems, self.selects, b, self.elems.len()),
                        None => self.selects,
                    },
                    ..self
                },
                seq![],
            ),
            _ => (self, seq![]),
        }
    }

    /// The state after a drag in `EditMoving` to the device point `inp`, over
    /// the world point `p`: the selection moves with the marquee, or else the
    /// hovered shape does, or else the viewport pans.
    pub open spec fn on_drag_moving(self, inp: Coordinate, p: Coordinate) -> PanelState {
        let s = if self.selects.len() > 0 {
            PanelState {
                elems: moved_selection(self.elems, self.selects, self.prev_coord, p),
                select_box: match self.select_box {
                    Some(b) => Some(b.with_extent(b.extent().moved(self.prev_coord, p))),
                    None => None,
                },
                ..self
            }
        } else {
            match self.hover_index {
                Some(h) => PanelState {
                    elems: self.elems.update(
                        h as int,
                        self.elems[h as int].moved(self.prev_coord, p),
                    ),
                    ..self
                },
                None => PanelState {
                    viewport: self.viewport.panned(self.raw_prev_coord, inp),
                    ..self
                },
            }
        };
        PanelState { prev_coord: p, raw_prev_coord: inp, ..s }
    }

    /// The state after a drag to the device point `inp`, over the world point
    /// `p`, and the calls it asks for.
    pub open spec fn on_drag(self, inp: Coordinate, p: Coordinate) -> (PanelState, Seq<HookCall>) {
        let last = (self.elems.len() - 1) as usize;
        match self.mode {
            ModeView::Creating(None) => (
                PanelState {
                    elems: self.elems.update(
                        last as int,
                        self.elems.last().created(self.prev_coord, p),
                    ),
                    ..self
                },
                seq![HookCall::DoingCreate { index: last, mouse_coord: p }],
            ),
            ModeView::EditMoving => (self.on_drag_moving(inp, p), seq![]),
            ModeView::EditResizing(v) => (
                match self.hover_index {
                    Some(h) => PanelState {
                        elems: self.elems.update(
                            h as int,
                            self.elems[h as int].resized(self.prev_coord, p, v as int),
                        ),
                        ..self
                    },
                    None => self,
                },
                seq![],
            ),
            ModeView::Select => (
                match self.select_box {
                    Some(b) => PanelState {
                        select_box: Some(b.with_extent(Extent::between(self.prev_coord, p))),
                        ..self
                    },
                    None => self,
                },
                seq![],
            ),
            _ => (self, seq![]),
        }
    }

    /// The state after a double click over the world point `p`, and the calls
    /// it asks for: on a hovered shape it ends the editing of a text, or else
    /// begins it for that shape.
    pub open spec fn on_dblclick(self, p: Coordinate) -> (PanelState, Seq<HookCall>) {
        match self.hover_index {
            Some(h) => if self.mode is EditState {
                (
                    PanelState { mode: ModeView::EditMoving, edit_index: None, ..self },
                    seq![
                        HookCall::EndEditState { index: self.edit_index.unwrap(), mouse_coord: p },
                    ],
                )
            } else {
                (
                    PanelState {
                        mode: ModeView::EditState,
                        edit_index: Some(h),
                        drag_vertex: None,
                        ..self
                    },
                    seq![
                        HookCall::BeginEditState {
                            index: h,
                            event_rect: event_rect(self.viewport, self.elems[h as int].vertices()),
                        },
                    ],
                )
            },
            None => (self, seq![]),
        }
    }

    /// The state after the scale was set to `val` about the device point
    /// `(x, y)`.
    pub open spec fn zoomed(self, val: int, x: int, y: int) -> PanelState {
        PanelState { viewport: self.viewport.zoomed(val, x, y), ..self }
    }

    /// The state after a zoom event at the device point `inp`, and the calls
    /// it asks for.
    pub open spec fn on_zoom(self, zoom: EventZoom, inp: Coordinate) -> (
        PanelState,
        Seq<HookCall>,
    ) {
        match zoom {
            EventZoom::NoZoom => (self, seq![]),
            EventZoom::Grow => (
                self.zoomed(self.viewport.scale + ZOOM_STEP, inp.x as int, inp.y as int),
                seq![HookCall::Flush],
            ),
            EventZoom::Dwindle => (
                self.zoomed(self.viewport.scale - ZOOM_STEP, inp.x as int, inp.y as int),
                seq![HookCall::Flush],
            ),
        }
    }

    /// The state after an event at the device point `inp`, and the calls it
    /// asks of the host, in order. The last call is always a repaint.
    pub open spec fn step(self, event_type: EventType, inp: Coordinate) -> (
        PanelState,
        Seq<HookCall>,
    ) {
        let p = self.viewport.to_world(inp);
        let r = match event_type {
            EventType::Move(_) => (self.on_move(p), seq![]),
            EventType::Push(_) => self.on_push(inp, p),
            EventType::Released(_) => self.on_released(p),
            EventType::Drag(_) => self.on_drag(inp, p),
            EventType::Dblclick => self.on_dblclick(p),
            EventType::Zoom(zoom) => self.on_zoom(zoom, inp),
        };
        (r.0, r.1.push(HookCall::Flush))
    }
}

} // verus!

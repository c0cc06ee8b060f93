//! The panel: the shapes, the viewport, and the mode machine that turns
//! pointer events into edits.

use crate::binder::{cmd_views, DrawCmd, DrawRectOpts, EventRect, EventType, EventZoom, HookCall};
use crate::coord::{clamp, is_near, Coordinate, WORLD_MAX};
use crate::draw_wrap::{shown_all, DrawWrap};
use crate::drawpanel::Mode;
use crate::elem::{elem_views, lemma_vertices, Elem, ElemView, Status};
use crate::elem::rect::{LineStyle, Rect};
use crate::geometry::box_intersects;
use crate::json::{from_json_object, json_object_items, json_object_text, texts, to_json_object};
use crate::state::{
    all_wf, ascending_below, enclosed, event_rect, grabbed_vertex, in_marquee,
    lemma_ascending_prefix, lemma_topmost_hit, moved_selection, selected_below, topmost_hit,
    without, HANDLES, PanelState, ZOOM_STEP,
};
use crate::token::{
    import_result, law_tokens_read_back, plain_all, prototype, read_tokens, tokens_of, write_token,
    ImportError,
};
use crate::viewport::Viewport;
use vstd::prelude::*;

verus! {

#[derive(Debug)]
pub struct Panel {
    /// The device point that the panel was made at.
    pub raw_lt_coord: Coordinate,
    pub width: i64,
    pub height: i64,
    pub viewport: Viewport,
    /// The shapes, the lowest first.
    pub elems: Vec<Elem>,
    /// The topmost shape under the pointer.
    pub hover_index: Option<usize>,
    /// The handle that a resize drags.
    pub drag_vertex: Option<u8>,
    /// The shape whose text the host edits.
    pub edit_index: Option<usize>,
    pub mode: Mode,
    /// The world point of the last press or move drag.
    pub prev_coord: Coordinate,
    /// The device point of the last press or move drag.
    pub raw_prev_coord: Coordinate,
    /// The marquee.
    pub select_box: Option<Rect>,
    /// The indices of the selected shapes, ascending.
    pub selects: Vec<usize>,
    /// One prototype for each kind that `import` accepts.
    pub register_elems: Vec<Elem>,
}

/// The shapes of a panel as its export carries them: one token each.
#[derive(Clone, Debug, PartialEq, Eq)]
pub struct PanelSerialize {
    pub elems: Vec<String>,
}

impl View for Panel {
    type V = PanelState;

    open spec fn view(&self) -> PanelState {
        PanelState {
            raw_lt_coord: self.raw_lt_coord,
            width: self.width,
            height: self.height,
            viewport: self.viewport,
            elems: elem_views(self.elems@),
            hover_index: self.hover_index,
            drag_vertex: self.drag_vertex,
            edit_index: self.edit_index,
            mode: self.mode@,
            prev_coord: self.prev_coord,
            raw_prev_coord: self.raw_prev_coord,
            select_box: self.select_box,
            selects: self.selects@,
            registry: elem_views(self.register_elems@),
        }
    }
}

impl Panel {
    /// What holds of a panel between any two events.
    pub open spec fn wf(self) -> bool {
        self@.wf()
    }

    /// An empty panel over the region at `(x, y)`, `w` wide and `h` high,
    /// that knows the kinds of the given prototypes.
    pub fn new(x: i64, y: i64, w: i64, h: i64, register_elem: Vec<Elem>) -> (panel: Panel)
        requires
            all_wf(elem_views(register_elem@)),
        ensures
            panel@ == PanelState::initial(x, y, w, h, elem_views(register_elem@)),
            panel.register_elems@ == register_elem@,
            panel.wf(),
    {
        let panel = Panel {
            raw_lt_coord: Coordinate { x, y },
            width: clamp(w, 4 * WORLD_MAX),
            height: clamp(h, 4 * WORLD_MAX),
            viewport: Viewport::new(x, y),
            elems: Vec::new(),
            hover_index: None,
            drag_vertex: None,
            edit_index: None,
            mode: Mode::EditMoving,
            prev_coord: Coordinate { x: 0, y: 0 },
            raw_prev_coord: Coordinate { x: 0, y: 0 },
            select_box: None,
            selects: Vec::new(),
            register_elems: register_elem,
        };
        assert(panel@.elems =~= Seq::<ElemView>::empty());
        assert(panel@.selects =~= Seq::<usize>::empty());
        panel
    }

    /// How the shape at `index` is shown.
    fn status_at(&self, index: usize) -> (r: Status)
        ensures
            r == self@.status_of(index as int),
    {
        let hovered: bool = match self.hover_index {
            Some(h) => h == index,
            None => false,
        };
        if hovered {
            match &self.mode {
                Mode::EditResizing(v) => Status::Resizing(*v),
                _ => Status::Hover,
            }
        } else {
            match &self.mode {
                Mode::Creating(_) => Status::Creating,
                _ => if Self::holds(&self.selects, index) {
                    Status::Hover
                } else {
                    Status::Default
                },
            }
        }
    }

    /// The calls that draw the panel, in order: the sheet, the shapes from
    /// the lowest up, each as its status asks, and the marquee on top.
    pub fn trigger_draw(&self) -> (r: Vec<DrawCmd>)
        requires
            self.wf(),
        ensures
            cmd_views(r@) == self@.frame(),
    {
        let mut draw = DrawWrap::new(self.viewport);
        let ghost v = self.viewport;
        draw.draw_rect(
            DrawRectOpts {
                left_top_coord: Coordinate { x: 0, y: 0 },
                width: self.width,
                height: self.height,
                line_size: 0,
                line_color: 0xffffff,
                fill_color: Some(0xffffff),
                line_style: LineStyle::Solid,
            },
        );
        assert(draw.drawn() =~= shown_all(v, seq![self@.sheet()] + self@.elems_drawing(0)));
        let n: usize = self.elems.len();
        let mut i: usize = 0;
        while i < n
            invariant
                i <= n,
                n == self.elems@.len(),
                self.wf(),
                draw.viewport == v,
                v == self.viewport,
                draw.drawn() == shown_all(v, seq![self@.sheet()] + self@.elems_drawing(i as nat)),
            decreases n - i,
        {
            assert(self@.elems[i as int].wf());
            let status = self.status_at(i);
            self.elems[i].draw(&mut draw, status);
            assert(draw.drawn() =~= shown_all(
                v,
                seq![self@.sheet()] + self@.elems_drawing((i + 1) as nat),
            ));
            i = i + 1;
        }
        match self.select_box {
            Some(select_box) => {
                select_box.draw(&mut draw, Status::Creating);
            },
            None => {},
        }
        assert(draw.drawn() =~= self@.frame());
        draw.commands
    }

    /// The topmost shape that the world point `p` touches.
    fn find_hover(&self, p: Coordinate) -> (r: Option<usize>)
        requires
            all_wf(self@.elems),
            p.in_world(),
        ensures
            r == topmost_hit(self@.elems, p),
            r matches Some(h) ==> h < self.elems@.len(),
    {
        let ghost all = self@.elems;
        let mut i: usize = self.elems.len();
        assert(all.subrange(0, i as int) =~= all);
        proof {
            lemma_topmost_hit(all, p);
        }
        while i > 0
            invariant
                i <= self.elems@.len(),
                all == self@.elems,
                all_wf(all),
                p.in_world(),
                topmost_hit(all, p) == topmost_hit(all.subrange(0, i as int), p),
            decreases i,
        {
            assert(all.subrange(0, i as int).drop_last() =~= all.subrange(0, i - 1));
            assert(all.subrange(0, i as int).last() == all[i - 1]);
            assert(all[i - 1].wf());
            if self.elems[i - 1].hover_condition(p) {
                return Some(i - 1);
            }
            i = i - 1;
        }
        None
    }

    /// The pointer moved to the world point `p`.
    fn on_move(&mut self, p: Coordinate)
        requires
            old(self).wf(),
            p.in_world(),
        ensures
            final(self)@ == old(self)@.on_move(p),
            final(self).wf(),
    {
        match self.mode {
            Mode::EditState => {},
            _ => {
                self.hover_index = self.find_hover(p);
            },
        }
    }

    /// The handle of the hovered shape that a press at `p` grabs.
    fn find_grabbed(&self, p: Coordinate) -> (r: Option<u8>)
        requires
            self.wf(),
            p.in_world(),
        ensures
            r == match self.hover_index {
                Some(h) => grabbed_vertex(self@.elems[h as int].vertices(), p),
                None => None,
            },
            r matches Some(v) ==> v < HANDLES,
    {
        match self.hover_index {
            Some(h) => {
                assert(self@.elems[h as int].wf());
                proof {
                    lemma_vertices(self@.elems[h as int]);
                }
                let vertex = self.elems[h].get_vertex();
                let ghost all = vertex@;
                let mut i: usize = vertex.len();
                assert(all.subrange(0, i as int) =~= all);
                while i > 0
                    invariant
                        i <= vertex@.len() <= 4,
                        all == vertex@,
                        self.hover_index == Some(h),
                        h < self.elems@.len(),
                        all == self@.elems[h as int].vertices(),
                        p.in_world(),
                        forall|j: int| 0 <= j < all.len() ==> (#[trigger] all[j]).in_world(),
                        grabbed_vertex(all, p) == grabbed_vertex(all.subrange(0, i as int), p),
                    decreases i,
                {
                    assert(all.subrange(0, i as int).drop_last() =~= all.subrange(0, i - 1));
                    assert(all.subrange(0, i as int).last() == all[i - 1]);
                    if is_near(p, vertex[i - 1]) {
                        assert(grabbed_vertex(all.subrange(0, i as int), p) == Some((i - 1) as u8));
                        return Some((i - 1) as u8);
                    }
                    i = i - 1;
                }
                None
            },
            None => None,
        }
    }

    fn on_push_moving(&mut self, p: Coordinate)
        requires
            old(self).wf(),
            old(self)@.mode is EditMoving,
            p.in_world(),
        ensures
            final(self)@ == old(self)@.on_push_moving(p),
            final(self).wf(),
    {
        match self.find_grabbed(p) {
            Some(v) => {
                self.mode = Mode::EditResizing(v);
                self.drag_vertex = Some(v);
            },
            None => {},
        }
        match self.select_box {
            Some(b) => {
                let vertex = b.get_vertex();
                if !box_intersects(vertex[0], vertex[2], p) {
                    self.selects.clear();
                    self.select_box = None;
                }
            },
            None => {},
        }
    }

    /// Takes the selected shapes out of the list, from the highest index
    /// down.
    fn remove_selected(&mut self)
        requires
            old(self).wf(),
        ensures
            final(self)@ == (PanelState {
                elems: without(old(self)@.elems, old(self)@.selects),
                ..old(self)@
            }),
            all_wf(final(self)@.elems),
            final(self)@.elems.len() == old(self)@.elems.len() - old(self)@.selects.len(),
    {
        let ghost before = self@;
        let mut k: usize = self.selects.len();
        assert(self.selects@.subrange(0, k as int) =~= self.selects@);
        while k > 0
            invariant
                k <= self.selects@.len(),
                self@ == (PanelState { elems: self@.elems, ..before }),
                all_wf(self@.elems),
                self@.elems.len() == before.elems.len() - (before.selects.len() - k),
                ascending_below(
                    before.selects.subrange(0, k as int),
                    self@.elems.len() as int,
                ),
                without(before.elems, before.selects) == without(
                    self@.elems,
                    before.selects.subrange(0, k as int),
                ),
            decreases k,
        {
            let ghost head = before.selects.subrange(0, k as int);
            let ghost cur = self@.elems;
            assert(head.drop_last() =~= before.selects.subrange(0, k - 1));
            assert(head.last() == before.selects[k - 1]);
            proof {
                lemma_ascending_prefix(head, cur.len() as int);
            }
            let index: usize = self.selects[k - 1];
            self.elems.remove(index);
            assert(self@.elems =~= cur.remove(index as int));
            k = k - 1;
        }
    }

    /// A press in `Deleting`; the result says whether the host is asked to
    /// repaint at once.
    fn on_push_deleting(&mut self, p: Coordinate) -> (flush: bool)
        requires
            old(self).wf(),
            old(self)@.mode is Deleting,
            p.in_world(),
        ensures
            final(self)@ == old(self)@.on_push_deleting(p).0,
            flush == old(self)@.on_push_deleting(p).1,
            final(self).wf(),
    {
        match self.hover_index {
            Some(h) => {
                let ghost cur = self@.elems;
                self.elems.remove(h);
                assert(self@.elems =~= cur.remove(h as int));
                self.hover_index = None;
                self.selects.clear();
                self.select_box = None;
                false
            },
            None => match self.select_box {
                Some(b) => {
                    if b.hover_condition(p) {
                        self.remove_selected();
                        self.selects.clear();
                        self.select_box = None;
                        true
                    } else {
                        false
                    }
                },
                None => false,
            },
        }
    }

    /// A press at the device point `inp`, over the world point `p`.
    fn on_push(&mut self, inp: Coordinate, p: Coordinate) -> (hooks: Vec<HookCall>)
        requires
            old(self).wf(),
            p.in_world(),
        ensures
            final(self)@ == old(self)@.on_push(inp, p).0,
            hooks@ == old(self)@.on_push(inp, p).1,
            final(self).wf(),
    {
        let mut hooks: Vec<HookCall> = Vec::new();
        self.prev_coord = p;
        self.raw_prev_coord = inp;
        let len: usize = self.elems.len();
        match &mut self.mode {
            Mode::EditMoving => {
                self.on_push_moving(p);
            },
            Mode::Creating(slot) => {
                match slot.take() {
                    Some(elem) => {
                        let ghost cur = self@.elems;
                        self.elems.push(elem);
                        assert(self@.elems =~= cur.push(elem@));
                        hooks.push(HookCall::BeginCreate { index: len, mouse_coord: p });
                    },
                    None => {
                        self.mode = Mode::EditMoving;
                        hooks.push(HookCall::EndCreate { index: len - 1, mouse_coord: p });
                    },
                }
            },
            Mode::EditResizing(_) => {},
            Mode::Deleting => {
                if self.on_push_deleting(p) {
                    hooks.push(HookCall::Flush);
                }
            },
            Mode::EditState => {
                let index: usize = self.edit_index.unwrap();
                self.mode = Mode::EditMoving;
                self.edit_index = None;
                hooks.push(HookCall::EndEditState { index, mouse_coord: p });
            },
            Mode::Select => {
                self.selects.clear();
                self.select_box = Some(
                    Rect {
                        lt_coord: Coordinate { x: 0, y: 0 },
                        width: 0,
                        height: 0,
                        line_size: 1,
                        line_color: 0,
                        fill_color: None,
                        line_style: LineStyle::Dotted,
                    },
                );
            },
        }
        hooks
    }

    /// The box on the device that a shape with the handles `ver` covers.
    pub fn calc_event_rect(&self, ver: Vec<Coordinate>) -> (r: EventRect)
        requires
            self.viewport.wf(),
            ver@.len() >= 1,
            forall|i: int| 0 <= i < ver@.len() ==> (#[trigger] ver@[i]).in_world(),
        ensures
            r == event_rect(self.viewport, ver@),
    {
        let left_top = ver[0];
        let right_bottom = if ver.len() > 2 {
            ver[2]
        } else {
            ver[ver.len() - 1]
        };
        EventRect {
            coord: self.viewport.absolute_coord(left_top),
            width: self.viewport.scale_len(right_bottom.x - left_top.x),
            height: self.viewport.scale_len(right_bottom.y - left_top.y),
        }
    }

    /// The box on the device that the shape at `index` covers.
    fn event_rect_of(&self, index: usize) -> (r: EventRect)
        requires
            self.wf(),
            index < self.elems@.len(),
        ensures
            r == event_rect(self.viewport, self@.elems[index as int].vertices()),
    {
        assert(self@.elems[index as int].wf());
        proof {
            lemma_vertices(self@.elems[index as int]);
        }
        let ver = self.elems[index].get_vertex();
        self.calc_event_rect(ver)
    }

    /// Whether the marquee encloses the shape at `index`.
    fn is_enclosed(&self, marquee: Rect, index: usize) -> (r: bool)
        requires
            self.wf(),
            marquee.wf(),
            index < self.elems@.len(),
        ensures
            r == enclosed(marquee, self@.elems[index as int]),
    {
        assert(self@.elems[index as int].wf());
        let corners = marquee.get_vertex();
        let ver = self.elems[index].get_vertex();
        let mut i: usize = 0;
        while i < ver.len()
            invariant
                i <= ver@.len(),
                corners@ == marquee.vertices(),
                index < self.elems@.len(),
                ver@ == self@.elems[index as int].vertices(),
                forall|j: int| 0 <= j < i ==> in_marquee(marquee, #[trigger] ver@[j]),
            decreases ver@.len() - i,
        {
            if !box_intersects(corners[0], corners[2], ver[i]) {
                return false;
            }
            i = i + 1;
        }
        true
    }

    /// Whether `list` holds `index`.
    fn holds(list: &Vec<usize>, index: usize) -> (r: bool)
        ensures
            r == list@.contains(index),
    {
        let mut i: usize = 0;
        while i < list.len()
            invariant
                i <= list@.len(),
                forall|j: int| 0 <= j < i ==> list@[j] != index,
            decreases list@.len() - i,
        {
            if list[i] == index {
                return true;
            }
            i = i + 1;
        }
        false
    }

    /// Adds to the selection every shape that the marquee encloses.
    fn select_enclosed(&mut self, marquee: Rect)
        requires
            old(self).wf(),
            old(self).select_box == Some(marquee),
        ensures
            final(self)@ == (PanelState {
                selects: selected_below(
                    old(self)@.elems,
                    old(self)@.selects,
                    marquee,
                    old(self)@.elems.len(),
                ),
                ..old(self)@
            }),
            ascending_below(final(self).selects@, final(self)@.elems.len() as int),
    {
        let mut picked: Vec<usize> = Vec::new();
        let n: usize = self.elems.len();
        let mut i: usize = 0;
        while i < n
            invariant
                i <= n,
                n == self.elems@.len(),
                self.wf(),
                marquee.wf(),
                picked@ == selected_below(self@.elems, self@.selects, marquee, i as nat),
                ascending_below(picked@, i as int),
            decreases n - i,
        {
            let was: bool = Self::holds(&self.selects, i);
            let inside: bool = self.is_enclosed(marquee, i);
            if was || inside {
                picked.push(i);
            }
            i = i + 1;
        }
        self.selects = picked;
    }

    /// A release over the world point `p`.
    fn on_released(&mut self, p: Coordinate) -> (hooks: Vec<HookCall>)
        requires
            old(self).wf(),
            p.in_world(),
        ensures
            final(self)@ == old(self)@.on_released(p).0,
            hooks@ == old(self)@.on_released(p).1,
            final(self).wf(),
    {
        let mut hooks: Vec<HookCall> = Vec::new();
        let len: usize = self.elems.len();
        match &self.mode {
            Mode::Creating(None) => {
                if self.elems[len - 1].need_input() {
                    let rect = self.event_rect_of(len - 1);
                    hooks.push(HookCall::EndCreate { index: len - 1, mouse_coord: p });
                    hooks.push(HookCall::BeginEditState { index: len - 1, event_rect: rect });
                    self.mode = Mode::EditState;
                    self.edit_index = Some(len - 1);
                }
            },
            Mode::EditResizing(_) => {
                self.mode = Mode::EditMoving;
                self.drag_vertex = None;
            },
            Mode::Select => {
                match self.select_box {
                    Some(marquee) => {
                        self.select_enclosed(marquee);
                    },
                    None => {},
                }
                self.mode = Mode::EditMoving;
            },
            _ => {},
        }
        hooks
    }

    /// Moves every selected shape by `p - prev_coord`.
    fn move_selected(&mut self, p: Coordinate)
        requires
            old(self).wf(),
            p.in_world(),
        ensures
            final(self)@ == (PanelState {
                elems: moved_selection(
                    old(self)@.elems,
                    old(self)@.selects,
                    old(self)@.prev_coord,
                    p,
                ),
                ..old(self)@
            }),
            all_wf(final(self)@.elems),
    {
        let ghost before = self@;
        let from_coord = self.prev_coord;
        let n: usize = self.selects.len();
        let len: usize = self.elems.len();
        let mut k: usize = 0;
        while k < n
            invariant
                k <= n,
                n == before.selects.len(),
                len == before.elems.len(),
                before.wf(),
                p.in_world(),
                from_coord == before.prev_coord,
                self@ == (PanelState { elems: self@.elems, ..before }),
                self@.elems.len() == before.elems.len(),
                all_wf(self@.elems),
                forall|i: int|
                    0 <= i < before.elems.len() ==> #[trigger] self@.elems[i] == if before.selects
                        .subrange(0, k as int).contains(i as usize) {
                        before.elems[i].moved(from_coord, p)
                    } else {
                        before.elems[i]
                    },
            decreases n - k,
        {
            let index: usize = self.selects[k];
            let ghost cur = self@.elems;
            let ghost head = before.selects.subrange(0, k as int);
            let ghost next = before.selects.subrange(0, k + 1);
            assert(before.selects[k as int] < before.elems.len());
            assert(cur[index as int].wf());
            assert(!head.contains(index)) by {
                if head.contains(index) {
                    let j = choose|j: int| 0 <= j < head.len() && head[j] == index;
                    assert(before.selects[j] < before.selects[k as int]);
                }
            }
            self.elems[index].edit_moving(from_coord, p);
            assert(self@.elems =~= cur.update(
                index as int,
                cur[index as int].moved(from_coord, p),
            ));
            assert(next =~= head.push(index));
            assert forall|i: int| 0 <= i < before.elems.len() implies #[trigger] self@.elems[i]
                == if next.contains(i as usize) {
                before.elems[i].moved(from_coord, p)
            } else {
                before.elems[i]
            } by {
                if i == index {
                    assert(next[k as int] == index);
                } else {
                    if next.contains(i as usize) {
                        let j = choose|j: int| 0 <= j < next.len() && next[j] == i as usize;
                        assert(j < k);
                        assert(head[j] == i as usize);
                    }
                    if head.contains(i as usize) {
                        let j = choose|j: int| 0 <= j < head.len() && head[j] == i as usize;
                        assert(next[j] == i as usize);
                    }
                }
            }
            k = k + 1;
        }
        assert(before.selects.subrange(0, n as int) =~= before.selects);
        assert(self@.elems =~= moved_selection(before.elems, before.selects, from_coord, p));
    }

    /// A drag in `EditMoving` to the device point `inp`, over the world point
    /// `p`.
    fn on_drag_moving(&mut self, inp: Coordinate, p: Coordinate)
        requires
            old(self).wf(),
            old(self)@.mode is EditMoving,
            p.in_world(),
        ensures
            final(self)@ == old(self)@.on_drag_moving(inp, p),
            final(self).wf(),
    {
        if self.selects.len() > 0 {
            self.move_selected(p);
            match self.select_box {
                Some(mut marquee) => {
                    marquee.edit_moving(self.prev_coord, p);
                    self.select_box = Some(marquee);
                },
                None => {},
            }
        } else {
            match self.hover_index {
                Some(h) => {
                    let ghost cur = self@.elems;
                    assert(cur[h as int].wf());
                    let from_coord = self.prev_coord;
                    self.elems[h].edit_moving(from_coord, p);
                    assert(self@.elems =~= cur.update(
                        h as int,
                        cur[h as int].moved(from_coord, p),
                    ));
                },
                None => {
                    let prev = self.raw_prev_coord;
                    self.viewport.move_pos(prev, inp);
                },
            }
        }
        self.raw_prev_coord = inp;
        self.prev_coord = p;
    }

    /// A drag to the device point `inp`, over the world point `p`.
    fn on_drag(&mut self, inp: Coordinate, p: Coordinate) -> (hooks: Vec<HookCall>)
        requires
            old(self).wf(),
            p.in_world(),
        ensures
            final(self)@ == old(self)@.on_drag(inp, p).0,
            hooks@ == old(self)@.on_drag(inp, p).1,
            final(self).wf(),
    {
        let mut hooks: Vec<HookCall> = Vec::new();
        let len: usize = self.elems.len();
        let from_coord = self.prev_coord;
        let ghost cur = self@.elems;
        match &self.mode {
            Mode::Creating(None) => {
                assert(cur[len - 1].wf());
                self.elems[len - 1].creating(from_coord, p);
                assert(self@.elems =~= cur.update(len - 1, cur[len - 1].created(from_coord, p)));
                hooks.push(HookCall::DoingCreate { index: len - 1, mouse_coord: p });
            },
            Mode::EditMoving => {
                self.on_drag_moving(inp, p);
            },
            Mode::EditResizing(v) => {
                let vertex: u8 = *v;
                match self.hover_index {
                    Some(h) => {
                        assert(cur[h as int].wf());
                        self.elems[h].edit_resizing(from_coord, p, vertex as i32);
                        assert(self@.elems =~= cur.update(
                            h as int,
                            cur[h as int].resized(from_coord, p, vertex as int),
                        ));
                    },
                    None => {},
                }
            },
            Mode::Select => {
                match self.select_box {
                    Some(mut marquee) => {
                        marquee.creating(from_coord, p);
                        self.select_box = Some(marquee);
                    },
                    None => {},
                }
            },
            _ => {},
        }
        hooks
    }

    /// A double click over the world point `p`.
    fn on_dblclick(&mut self, p: Coordinate) -> (hooks: Vec<HookCall>)
        requires
            old(self).wf(),
            p.in_world(),
        ensures
            final(self)@ == old(self)@.on_dblclick(p).0,
            hooks@ == old(self)@.on_dblclick(p).1,
            final(self).wf(),
    {
        let mut hooks: Vec<HookCall> = Vec::new();
        match self.hover_index {
            Some(h) => {
                match &self.mode {
                    Mode::EditState => {
                        let index: usize = self.edit_index.unwrap();
                        self.mode = Mode::EditMoving;
                        self.edit_index = None;
                        hooks.push(HookCall::EndEditState { index, mouse_coord: p });
                    },
                    _ => {
                        let rect = self.event_rect_of(h);
                        self.mode = Mode::EditState;
                        self.edit_index = Some(h);
                        self.drag_vertex = None;
                        hooks.push(HookCall::BeginEditState { index: h, event_rect: rect });
                    },
                }
            },
            None => {},
        }
        hooks
    }

    /// Sets the scale to `val` about the device point `(x, y)`, and asks the
    /// host to repaint.
    pub fn set_scale(&mut self, val: i64, x: i64, y: i64) -> (hooks: Vec<HookCall>)
        requires
            old(self).wf(),
        ensures
            final(self)@ == old(self)@.zoomed(val as int, x as int, y as int),
            hooks@ == seq![HookCall::Flush],
            final(self).wf(),
    {
        self.viewport.set_scale(val, x, y);
        let mut hooks: Vec<HookCall> = Vec::new();
        hooks.push(HookCall::Flush);
        hooks
    }

    /// The scale, in hundredths.
    pub fn scale(&self) -> (r: i64)
        ensures
            r == self.viewport.scale,
    {
        self.viewport.scale
    }

    /// Pans by the difference of two device points.
    pub fn move_pos(&mut self, prev: Coordinate, target: Coordinate)
        requires
            old(self).wf(),
        ensures
            final(self)@ == (PanelState {
                viewport: old(self).viewport.panned(prev, target),
                ..old(self)@
            }),
            final(self).wf(),
    {
        self.viewport.move_pos(prev, target);
    }

    /// The world point under a device point.
    pub fn relative_coord(&self, coord: Coordinate) -> (r: Coordinate)
        requires
            self.viewport.wf(),
        ensures
            r == self.viewport.to_world(coord),
            r.in_world(),
    {
        self.viewport.relative_coord(coord)
    }

    /// The device point that shows a world point.
    pub fn absolute_coord(&self, coord: Coordinate) -> (r: Coordinate)
        requires
            self.viewport.wf(),
            coord.in_world(),
        ensures
            r == self.viewport.to_device(coord),
    {
        self.viewport.absolute_coord(coord)
    }

    /// A zoom event at the device point `inp`.
    fn on_zoom(&mut self, zoom: EventZoom, inp: Coordinate) -> (hooks: Vec<HookCall>)
        requires
            old(self).wf(),
        ensures
            final(self)@ == old(self)@.on_zoom(zoom, inp).0,
            hooks@ == old(self)@.on_zoom(zoom, inp).1,
            final(self).wf(),
    {
        match zoom {
            EventZoom::NoZoom => Vec::new(),
            EventZoom::Grow => self.set_scale(self.viewport.scale + ZOOM_STEP, inp.x, inp.y),
            EventZoom::Dwindle => self.set_scale(self.viewport.scale - ZOOM_STEP, inp.x, inp.y),
        }
    }

    /// Takes one event at the device point `inp_mouse_coord`, and returns the
    /// calls that the host is asked to make, in order.
    pub fn trigger_event(&mut self, event_type: EventType, inp_mouse_coord: Coordinate) -> (hooks:
        Vec<HookCall>)
        requires
            old(self).wf(),
        ensures
            final(self)@ == old(self)@.step(event_type, inp_mouse_coord).0,
            hooks@ == old(self)@.step(event_type, inp_mouse_coord).1,
            final(self).wf(),
    {
        let relative_coord = self.relative_coord(inp_mouse_coord);
        let mut hooks = match event_type {
            EventType::Move(_) => {
                self.on_move(relative_coord);
                Vec::new()
            },
            EventType::Push(_) => self.on_push(inp_mouse_coord, relative_coord),
            EventType::Released(_) => self.on_released(relative_coord),
            EventType::Drag(_) => self.on_drag(inp_mouse_coord, relative_coord),
            EventType::Dblclick => self.on_dblclick(relative_coord),
            EventType::Zoom(zoom) => self.on_zoom(zoom, inp_mouse_coord),
        };
        hooks.push(HookCall::Flush);
        hooks
    }

    /// Puts the panel into `mode`, or into `EditMoving` where it cannot be
    /// put into `mode`.
    pub fn set_mode(&mut self, mode: Mode)
        requires
            old(self).wf(),
        ensures
            final(self)@ == old(self)@.with_mode(mode@),
            final(self).wf(),
    {
        let len: usize = self.elems.len();
        let admitted: bool = match &mode {
            Mode::Creating(Some(e)) => e.is_valid(),
            Mode::Creating(None) => len >= 1,
            Mode::EditResizing(v) => *v < HANDLES,
            Mode::EditState => len >= 1,
            _ => true,
        };
        if admitted {
            self.drag_vertex = match &mode {
                Mode::EditResizing(v) => Some(*v),
                _ => None,
            };
            self.edit_index = match &mode {
                Mode::EditState => Some(len - 1),
                _ => None,
            };
            self.mode = mode;
        } else {
            self.drag_vertex = None;
            self.edit_index = None;
            self.mode = Mode::EditMoving;
        }
    }

    /// Writes the label of the shape at `index`, as the host does when the
    /// editing of a text ends; a shape without a label is left as it is.
    pub fn set_content(&mut self, index: usize, content: &str)
        requires
            old(self).wf(),
            index < old(self).elems@.len(),
        ensures
            final(self)@ == (PanelState {
                elems: old(self)@.elems.update(
                    index as int,
                    old(self)@.elems[index as int].with_content(content@),
                ),
                ..old(self)@
            }),
            final(self).wf(),
    {
        let ghost cur = self@.elems;
        assert(cur[index as int].wf());
        self.elems[index].set_content(content);
        assert(self@.elems =~= cur.update(index as int, cur[index as int].with_content(content@)));
    }

    /// The shapes as text: a JSON object whose member `elems` lists their
    /// tokens in order.
    pub fn export(&self) -> (r: String)
        ensures
            r@ == json_object_text("elems"@, tokens_of(self@.elems)),
    {
        let mut panel_serialize = PanelSerialize { elems: Vec::new() };
        let mut i: usize = 0;
        while i < self.elems.len()
            invariant
                i <= self.elems@.len(),
                panel_serialize.elems@.len() == i,
                forall|j: int|
                    0 <= j < i ==> (#[trigger] panel_serialize.elems@[j])@ == tokens_of(
                        self@.elems,
                    )[j],
            decreases self.elems@.len() - i,
        {
            let elem_seria = write_token(&self.elems[i]);
            panel_serialize.elems.push(elem_seria);
            i = i + 1;
        }
        assert(texts(panel_serialize.elems@) =~= tokens_of(self@.elems));
        to_json_object("elems", &panel_serialize.elems)
    }

    /// Replaces the shapes by those that a text stands for, and asks the
    /// host to repaint; a text that is refused leaves the panel as it was.
    /// What `export` wrote for a list of well-formed shapes of registered
    /// kinds is never refused and gives these shapes back.
    pub fn import(&mut self, data: &str) -> (r: Result<Vec<HookCall>, ImportError>)
        requires
            old(self).wf(),
        ensures
            match r {
                Ok(hooks) => {
                    &&& import_result(old(self)@.registry, json_object_items(data@, "elems"@))
                        == Ok::<Seq<ElemView>, ImportError>(final(self)@.elems)
                    &&& final(self)@ == old(self)@.replaced(final(self)@.elems)
                    &&& hooks@ == seq![HookCall::Flush]
                },
                Err(e) => {
                    &&& import_result(old(self)@.registry, json_object_items(data@, "elems"@))
                        == Err::<Seq<ElemView>, ImportError>(e)
                    &&& final(self)@ == old(self)@
                },
            },
            final(self).wf(),
            forall|elems: Seq<ElemView>|
                all_wf(elems) && (forall|i: int|
                    0 <= i < elems.len() ==> prototype(
                        old(self)@.registry,
                        (#[trigger] elems[i]).kind(),
                    ) is Some) && data@ == json_object_text("elems"@, #[trigger] tokens_of(elems))
                    ==> r is Ok && final(self)@.elems == plain_all(elems),
    {
        let ghost registry = self@.registry;
        let parsed = from_json_object(data, "elems");
        let ghost items = json_object_items(data@, "elems"@);
        assert forall|elems: Seq<ElemView>|
            all_wf(elems) && (forall|i: int|
                0 <= i < elems.len() ==> prototype(registry, (#[trigger] elems[i]).kind()) is Some)
                && data@ == json_object_text("elems"@, #[trigger] tokens_of(elems))
            implies import_result(registry, items) == Ok::<Seq<ElemView>, ImportError>(
            plain_all(elems),
        ) by {
            law_tokens_read_back(registry, elems);
            assert(items == Some(tokens_of(elems)));
        }
        let panel_serialize = match parsed {
            Some(tokens) => PanelSerialize { elems: tokens },
            None => {
                return Err(ImportError::Json);
            },
        };
        match read_tokens(&self.register_elems, &panel_serialize.elems) {
            Ok(elems) => {
                self.elems = elems;
                self.hover_index = None;
                self.drag_vertex = None;
                self.edit_index = None;
                self.select_box = None;
                self.selects.clear();
                let keep: bool = match &self.mode {
                    Mode::Creating(None) => false,
                    Mode::EditResizing(_) => false,
                    Mode::EditState => false,
                    _ => true,
                };
                if !keep {
                    self.mode = Mode::EditMoving;
                }
                let mut hooks: Vec<HookCall> = Vec::new();
                hooks.push(HookCall::Flush);
                Ok(hooks)
            },
            Err(e) => Err(e),
        }
    }
}

} // verus!

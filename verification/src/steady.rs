//! What holds of the panel holds along every sequence of events.

use crate::binder::EventType;
use crate::coord::{clamped, near, Coordinate, DEVICE_MAX, WORLD_MAX};
use crate::drawpanel::ModeView;
use crate::elem::{lemma_vertices, ElemView};
use crate::state::{
    all_wf, ascending_below, grabbed_vertex, law_deletion, law_selection, lemma_ascending_prefix,
    lemma_topmost_hit, without, HANDLES, PanelState,
};
use crate::viewport::{lemma_quotient_bound, Viewport};
use vstd::prelude::*;

verus! {

/// The world point under a device point lies in the world.
pub proof fn lemma_to_world(v: Viewport, d: Coordinate)
    requires
        v.wf(),
    ensures
        v.to_world(d).in_world(),
{
    let nx = 100 * clamped(d.x as int, DEVICE_MAX as int) - v.origin.x;
    let ny = 100 * clamped(d.y as int, DEVICE_MAX as int) - v.origin.y;
    lemma_quotient_bound(nx, v.scale as int, WORLD_MAX as int);
    lemma_quotient_bound(ny, v.scale as int, WORLD_MAX as int);
}

/// A well-formed shape stays well formed when it is created further, moved,
/// resized or given a label.
pub proof fn lemma_shape_edits(e: ElemView, from_coord: Coordinate, end_coord: Coordinate, v: int)
    requires
        e.wf(),
        from_coord.in_world(),
        end_coord.in_world(),
    ensures
        e.created(from_coord, end_coord).wf(),
        e.moved(from_coord, end_coord).wf(),
        e.resized(from_coord, end_coord, v).wf(),
        forall|c: Seq<char>| (#[trigger] e.with_content(c)).wf(),
{
}

/// The handle that a press grabs is one of the handles.
pub proof fn lemma_grabbed(vertices: Seq<Coordinate>, p: Coordinate)
    requires
        vertices.len() <= HANDLES,
    ensures
        grabbed_vertex(vertices, p) matches Some(v) ==> v < vertices.len(),
    decreases vertices.len(),
{
    if vertices.len() > 0 && !near(p, vertices.last()) {
        lemma_grabbed(vertices.drop_last(), p);
    }
}

/// A list of well-formed shapes without some of them is a list of
/// well-formed shapes.
pub proof fn lemma_without_wf(elems: Seq<ElemView>, selects: Seq<usize>)
    requires
        all_wf(elems),
        ascending_below(selects, elems.len() as int),
    ensures
        all_wf(without(elems, selects)),
    decreases selects.len(),
{
    if selects.len() > 0 {
        lemma_ascending_prefix(selects, elems.len() as int);
        let rest = elems.remove(selects.last() as int);
        assert forall|i: int| 0 <= i < rest.len() implies (#[trigger] rest[i]).wf() by {
            if i < selects.last() {
                assert(rest[i] == elems[i]);
            } else {
                assert(rest[i] == elems[i + 1]);
            }
        }
        lemma_without_wf(rest, selects.drop_last());
    }
}

/// One event keeps the panel well formed, as long as its list of shapes has
/// room for one more.
pub proof fn lemma_step_wf(s: PanelState, event_type: EventType, inp: Coordinate)
    requires
        s.wf(),
        s.elems.len() < usize::MAX,
    ensures
        s.step(event_type, inp).0.wf(),
        s.step(event_type, inp).0.elems.len() <= s.elems.len() + 1,
{
    let p = s.viewport.to_world(inp);
    lemma_to_world(s.viewport, inp);
    assert forall|i: int| 0 <= i < s.elems.len() implies (#[trigger] s.elems[i]).moved(
        s.prev_coord,
        p,
    ).wf() by {
        lemma_shape_edits(s.elems[i], s.prev_coord, p, 0);
    }
    match event_type {
        EventType::Move(_) => {
            lemma_topmost_hit(s.elems, p);
        },
        EventType::Push(_) => {
            match s.mode {
                ModeView::EditMoving => {
                    if let Some(h) = s.hover_index {
                        lemma_vertices(s.elems[h as int]);
                        lemma_grabbed(s.elems[h as int].vertices(), p);
                    }
                },
                ModeView::Deleting => {
                    if let Some(h) = s.hover_index {
                        let rest = s.elems.remove(h as int);
                        assert forall|i: int| 0 <= i < rest.len() implies (#[trigger] rest[i]).wf() by {
                            if i < h {
                                assert(rest[i] == s.elems[i]);
                            } else {
                                assert(rest[i] == s.elems[i + 1]);
                            }
                        }
                    } else {
                        lemma_without_wf(s.elems, s.selects);
                        law_deletion(s.elems, s.selects);
                    }
                },
                _ => {},
            }
        },
        EventType::Released(_) => {
            if s.mode is Select {
                if let Some(b) = s.select_box {
                    law_selection(s.elems, s.selects, b, s.elems.len());
                }
            }
        },
        EventType::Drag(_) => {
            match s.mode {
                ModeView::Creating(None) => {
                    lemma_shape_edits(s.elems.last(), s.prev_coord, p, 0);
                },
                ModeView::EditResizing(v) => {
                    if let Some(h) = s.hover_index {
                        lemma_shape_edits(s.elems[h as int], s.prev_coord, p, v as int);
                    }
                },
                _ => {},
            }
        },
        _ => {},
    }
}

/// The state after a sequence of events, each with the device point it
/// happened at.
pub open spec fn after(s: PanelState, events: Seq<(EventType, Coordinate)>) -> PanelState
    decreases events.len(),
{
    if events.len() == 0 {
        s
    } else {
        after(s, events.drop_last()).step(events.last().0, events.last().1).0
    }
}

/// After any sequence of events, as long as the list of shapes has room for
/// the shapes that they may create, the panel is well formed. So its mode
/// never speaks of what is not there: a resize names one of the handles, and
/// it is the handle that is dragged; a creation under way has its shape at
/// the end of the list; a text that is edited is that of a shape of the list;
/// and the hovered and the selected shapes are shapes of the list.
pub proof fn law_mode_valid(s: PanelState, events: Seq<(EventType, Coordinate)>)
    requires
        s.wf(),
        s.elems.len() + events.len() <= usize::MAX,
    ensures
        after(s, events).wf(),
        after(s, events).elems.len() <= s.elems.len() + events.len(),
        match after(s, events).mode {
            ModeView::EditResizing(v) => v < HANDLES && after(s, events).drag_vertex == Some(v),
            ModeView::Creating(None) => after(s, events).elems.len() >= 1,
            ModeView::Creating(Some(e)) => e.wf(),
            ModeView::EditState => after(s, events).edit_index matches Some(i) && i < after(
                s,
                events,
            ).elems.len(),
            _ => true,
        },
        after(s, events).hover_index matches Some(h) ==> h < after(s, events).elems.len(),
        forall|i: int|
            0 <= i < after(s, events).selects.len() ==> (#[trigger] after(s, events).selects[i])
                < after(s, events).elems.len(),
    decreases events.len(),
{
    if events.len() > 0 {
        law_mode_valid(s, events.drop_last());
        lemma_step_wf(after(s, events.drop_last()), events.last().0, events.last().1);
    }
}

} // verus!

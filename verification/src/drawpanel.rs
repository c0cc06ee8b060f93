//! The modes of the panel, and the panel as its host holds it.

use crate::binder::{cmd_views, Binder, DrawCmd, EventType, HookCall};
use crate::coord::Coordinate;
use crate::elem::{elem_views, Elem, ElemView};
use crate::elem::extent::Extent;
use crate::elem::line::Line;
use crate::elem::pen::Pen;
use crate::elem::rect::Rect;
use crate::elem::text::Text;
use crate::json::{json_object_items, json_object_text};
use crate::panel::Panel;
use crate::state::{all_wf, PanelState};
use crate::token::{import_result, plain_all, prototype, tokens_of, ImportError};
use vstd::prelude::*;

verus! {

/// What the pointer does. Exactly one mode holds at a time.
#[derive(Clone, Debug, PartialEq, Eq)]
pub enum Mode {
    /// A drag moves the hovered shape or the selection.
    EditMoving,
    /// A shape is created: the prototype is held until the first press, and
    /// the new shape is the last of the list after it.
    Creating(Option<Elem>),
    /// A drag resizes the hovered shape by the handle of the given number.
    EditResizing(u8),
    /// A press deletes.
    Deleting,
    /// The host edits the text of one shape.
    EditState,
    /// A drag draws the marquee.
    Select,
}

/// What a mode is.
pub enum ModeView {
    EditMoving,
    Creating(Option<ElemView>),
    EditResizing(u8),
    Deleting,
    EditState,
    Select,
}

impl View for Mode {
    type V = ModeView;

    open spec fn view(&self) -> ModeView {
        match *self {
            Mode::EditMoving => ModeView::EditMoving,
            Mode::Creating(Some(e)) => ModeView::Creating(Some(e@)),
            Mode::Creating(None) => ModeView::Creating(None),
            Mode::EditResizing(v) => ModeView::EditResizing(v),
            Mode::Deleting => ModeView::Deleting,
            Mode::EditState => ModeView::EditState,
            Mode::Select => ModeView::Select,
        }
    }
}

/// Every kind of shape has a prototype among those that a new panel
/// registers.
pub proof fn lemma_default_registry(e: ElemView)
    ensures
        prototype(Drawpanel::default_registry(), e.kind()) is Some,
{
    let r = Drawpanel::default_registry();
    reveal_with_fuel(prototype, 5);
    assert(r.drop_first()[0] == r[1]);
    assert(r.drop_first().drop_first()[0] == r[2]);
    assert(r.drop_first().drop_first().drop_first()[0] == r[3]);
}

/// A panel with the four kinds of shape registered, owned by its host.
#[derive(Debug)]
pub struct Drawpanel {
    panel: Panel,
}

impl View for Drawpanel {
    type V = PanelState;

    closed spec fn view(&self) -> PanelState {
        self.panel@
    }
}

impl Drawpanel {
    /// What holds of the panel between any two calls: what holds of every
    /// panel, and that the four kinds of shape are registered.
    pub open spec fn wf(self) -> bool {
        self@.wf() && self@.registry == Drawpanel::default_registry()
    }

    /// One empty shape of each kind, in the order in which a new panel
    /// registers them: a stroke, a line, a rectangle, a text box.
    pub open spec fn default_registry() -> Seq<ElemView> {
        seq![
            ElemView::Pen(Pen::empty_points()),
            ElemView::Line(Line::empty()),
            ElemView::Rect(Rect::empty()),
            ElemView::Text(
                Extent { lt_coord: Coordinate { x: 0, y: 0 }, width: 0, height: 0 },
                Seq::empty(),
            ),
        ]
    }

    /// One empty shape of each kind.
    pub fn prototypes() -> (r: Vec<Elem>)
        ensures
            elem_views(r@) == Drawpanel::default_registry(),
            all_wf(elem_views(r@)),
    {
        let pen = Pen::default();
        let text = Text::default();
        let r = vec![
            Elem::Pen(pen),
            Elem::Line(Line::default()),
            Elem::Rect(Rect::default()),
            Elem::Text(text),
        ];
        assert(elem_views(r@) =~= Drawpanel::default_registry());
        r
    }

    /// An empty panel over the region of the binder, with the four kinds of
    /// shape registered.
    pub fn new<B: Binder>(binder: B) -> (r: Drawpanel)
        ensures
            r@ == PanelState::initial(
                binder.spec_region().coord.x,
                binder.spec_region().coord.y,
                binder.spec_region().width,
                binder.spec_region().height,
                Drawpanel::default_registry(),
            ),
            r.wf(),
    {
        let region = binder.region();
        let panel = Panel::new(
            region.coord.x,
            region.coord.y,
            region.width,
            region.height,
            Self::prototypes(),
        );
        Drawpanel { panel }
    }

    /// Asks the host to repaint.
    pub fn flush(&mut self) -> (hooks: Vec<HookCall>)
        ensures
            final(self)@ == old(self)@,
            hooks@ == seq![HookCall::Flush],
    {
        let mut hooks: Vec<HookCall> = Vec::new();
        hooks.push(HookCall::Flush);
        hooks
    }

    /// Sets the scale to `val` about the device point `(x, y)`.
    pub fn set_scale(&mut self, val: i64, x: i64, y: i64) -> (hooks: Vec<HookCall>)
        requires
            old(self).wf(),
        ensures
            final(self)@ == old(self)@.zoomed(val as int, x as int, y as int),
            hooks@ == seq![HookCall::Flush],
            final(self).wf(),
    {
        self.panel.set_scale(val, x, y)
    }

    /// The scale, in hundredths.
    pub fn scale(&self) -> (r: i64)
        ensures
            r == self@.viewport.scale,
    {
        self.panel.scale()
    }

    /// Puts the panel into `mode`, or into `EditMoving` where it cannot be
    /// put into `mode`.
    pub fn set_mode(&mut self, mode: Mode)
        requires
            old(self).wf(),
        ensures
            final(self)@ == old(self)@.with_mode(mode@),
            final(self).wf(),
    {
        self.panel.set_mode(mode);
    }

    /// Writes the label of the shape at `index`, as the host does when the
    /// editing of a text ends; a shape without a label is left as it is.
    pub fn set_content(&mut self, index: usize, content: &str)
        requires
            old(self).wf(),
            index < old(self)@.elems.len(),
        ensures
            final(self)@ == (PanelState {
                elems: old(self)@.elems.update(
                    index as int,
                    old(self)@.elems[index as int].with_content(content@),
                ),
                ..old(self)@
            }),
            final(self).wf(),
    {
        self.panel.set_content(index, content);
    }

    /// The shapes as text.
    pub fn export(&self) -> (r: String)
        ensures
            r@ == json_object_text("elems"@, tokens_of(self@.elems)),
    {
        self.panel.export()
    }

    /// Replaces the shapes by those that a text stands for; a text that is
    /// refused leaves the panel as it was.
    pub fn import(&mut self, data: &str) -> (r: Result<Vec<HookCall>, ImportError>)
        requires
            old(self).wf(),
        ensures
            match r {
                Ok(hooks) => {
                    &&& import_result(
                        old(self)@.registry,
                        json_object_items(data@, "elems"@),
                    ) == Ok::<Seq<ElemView>, ImportError>(final(self)@.elems)
                    &&& final(self)@ == old(self)@.replaced(final(self)@.elems)
                    &&& hooks@ == seq![HookCall::Flush]
                },
                Err(e) => {
                    &&& import_result(
                        old(self)@.registry,
                        json_object_items(data@, "elems"@),
                    ) == Err::<Seq<ElemView>, ImportError>(e)
                    &&& final(self)@ == old(self)@
                },
            },
            final(self).wf(),
            forall|elems: Seq<ElemView>|
                all_wf(elems) && data@ == json_object_text("elems"@, #[trigger] tokens_of(elems))
                    ==> r is Ok && final(self)@.elems == plain_all(elems),
    {
        proof {
            assert forall|elems: Seq<ElemView>, i: int| 0 <= i < elems.len() implies prototype(
                Drawpanel::default_registry(),
                (#[trigger] elems[i]).kind(),
            ) is Some by {
                lemma_default_registry(elems[i]);
            }
        }
        self.panel.import(data)
    }

    /// Takes one event at the device point `inp_mouse_coord`, and returns the
    /// calls that the host is asked to make, in order.
    pub fn trigger_event(&mut self, event_type: EventType, inp_mouse_coord: Coordinate) -> (hooks:
        Vec<HookCall>)
        requires
            old(self).wf(),
        ensures
            final(self)@ == old(self)@.step(event_type, inp_mouse_coord).0,
            hooks@ == old(self)@.step(event_type, inp_mouse_coord).1,
            final(self).wf(),
    {
        self.panel.trigger_event(event_type, inp_mouse_coord)
    }

    /// The calls that draw the panel.
    pub fn trigger_draw(&self) -> (r: Vec<DrawCmd>)
        requires
            self.wf(),
        ensures
            cmd_views(r@) == self@.frame(),
    {
        self.panel.trigger_draw()
    }

    /// The panel, to read.
    pub fn panel(&self) -> (r: &Panel)
        ensures
            r@ == self@,
    {
        &self.panel
    }
}

} // verus!

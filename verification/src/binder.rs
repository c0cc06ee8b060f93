//! What passes between the panel and its host: the events that come in,
//! and the calls that the host is asked to make.

use crate::coord::Coordinate;
use crate::elem::rect::LineStyle;
use vstd::prelude::*;

verus! {

/// The direction of a zoom event.
#[derive(Clone, Copy, Debug, PartialEq, Eq, Structural)]
pub enum EventZoom {
    NoZoom,
    Grow,
    Dwindle,
}

/// The button that a pointer event names.
#[derive(Clone, Copy, Debug, PartialEq, Eq, Structural)]
pub enum EventMouseButton {
    NoButton,
    Left,
    Middle,
    Right,
}

/// A pointer event, as the host saw it.
#[derive(Clone, Copy, Debug, PartialEq, Eq, Structural)]
pub enum EventType {
    Move(EventMouseButton),
    Push(EventMouseButton),
    Dblclick,
    Released(EventMouseButton),
    Drag(EventMouseButton),
    Zoom(EventZoom),
}

/// A line for the renderer to draw.
#[derive(Clone, Copy, Debug, PartialEq, Eq, Structural)]
pub struct DrawLineOpts {
    pub from_coord: Coordinate,
    pub end_coord: Coordinate,
    pub line_size: i64,
    pub line_color: u32,
}

/// A rectangle for the renderer to draw.
#[derive(Clone, Copy, Debug, PartialEq, Eq, Structural)]
pub struct DrawRectOpts {
    pub left_top_coord: Coordinate,
    pub width: i64,
    pub height: i64,
    pub line_size: i64,
    pub line_color: u32,
    pub fill_color: Option<u32>,
    pub line_style: LineStyle,
}

/// A circle for the renderer to draw.
#[derive(Clone, Copy, Debug, PartialEq, Eq, Structural)]
pub struct DrawCircleOpts {
    pub center_coord: Coordinate,
    pub r: i64,
    pub line_size: i64,
    pub line_color: u32,
    pub fill_color: u32,
}

/// A text for the renderer to draw.
#[derive(Clone, Debug, PartialEq, Eq)]
pub struct DrawTextOpts {
    pub left_top_coord: Coordinate,
    pub width: i64,
    pub height: i64,
    pub content: String,
    pub font_size: i64,
    pub font_space: i64,
    pub font_color: u32,
}

/// What a text for the renderer is.
pub struct DrawTextView {
    pub left_top_coord: Coordinate,
    pub width: i64,
    pub height: i64,
    pub content: Seq<char>,
    pub font_size: i64,
    pub font_space: i64,
    pub font_color: u32,
}

impl View for DrawTextOpts {
    type V = DrawTextView;

    open spec fn view(&self) -> DrawTextView {
        DrawTextView {
            left_top_coord: self.left_top_coord,
            width: self.width,
            height: self.height,
            content: self.content@,
            font_size: self.font_size,
            font_space: self.font_space,
            font_color: self.font_color,
        }
    }
}

/// One call of the renderer.
#[derive(Clone, Debug, PartialEq, Eq)]
pub enum DrawCmd {
    Line(DrawLineOpts),
    Rect(DrawRectOpts),
    Circle(DrawCircleOpts),
    Text(DrawTextOpts),
}

/// What a call of the renderer is.
pub enum DrawCmdView {
    Line(DrawLineOpts),
    Rect(DrawRectOpts),
    Circle(DrawCircleOpts),
    Text(DrawTextView),
}

impl View for DrawCmd {
    type V = DrawCmdView;

    open spec fn view(&self) -> DrawCmdView {
        match *self {
            DrawCmd::Line(o) => DrawCmdView::Line(o),
            DrawCmd::Rect(o) => DrawCmdView::Rect(o),
            DrawCmd::Circle(o) => DrawCmdView::Circle(o),
            DrawCmd::Text(o) => DrawCmdView::Text(o@),
        }
    }
}

/// What each call of `s` is.
pub open spec fn cmd_views(s: Seq<DrawCmd>) -> Seq<DrawCmdView> {
    Seq::new(s.len(), |i: int| s[i]@)
}

/// A box on the device: where the host places the field that edits a text.
#[derive(Clone, Copy, Debug, PartialEq, Eq, Structural)]
pub struct EventRect {
    pub coord: Coordinate,
    pub width: i64,
    pub height: i64,
}

/// What ties a panel to a toolkit. Of a binder the panel takes the region
/// that it is to cover; the drawing and the hooks stay with the host.
pub trait Binder {
    /// The region that the binder gives the panel.
    spec fn spec_region(&self) -> EventRect;

    /// The region of the device that the panel is to cover.
    fn region(&self) -> (r: EventRect)
        ensures
            r == self.spec_region(),
    ;
}

/// The binder for a panel inside an egui frame.
#[derive(Clone, Copy, Debug, PartialEq, Eq, Structural)]
pub struct EguiBinder {}

impl EguiBinder {
    pub fn new() -> (r: EguiBinder)
        ensures
            r == (EguiBinder {  }),
    {
        EguiBinder {  }
    }
}

impl Binder for EguiBinder {
    /// A square of side 100 at the origin: the frame places the panel itself.
    open spec fn spec_region(&self) -> EventRect {
        EventRect { coord: Coordinate { x: 0, y: 0 }, width: 100, height: 100 }
    }

    fn region(&self) -> (r: EventRect) {
        EventRect { coord: Coordinate { x: 0, y: 0 }, width: 100, height: 100 }
    }
}

/// The binder for a panel inside an fltk frame: it keeps the region of the
/// frame.
#[derive(Clone, Copy, Debug, PartialEq, Eq, Structural)]
pub struct FltkBinder {
    pub region: EventRect,
}

impl FltkBinder {
    /// The binder for a frame at `(x, y)`, `w` wide and `h` high.
    pub fn new(x: i32, y: i32, w: i32, h: i32) -> (r: FltkBinder)
        ensures
            r.region == (EventRect {
                coord: Coordinate { x: x as i64, y: y as i64 },
                width: w as i64,
                height: h as i64,
            }),
    {
        FltkBinder {
            region: EventRect {
                coord: Coordinate { x: x as i64, y: y as i64 },
                width: w as i64,
                height: h as i64,
            },
        }
    }
}

impl Binder for FltkBinder {
    open spec fn spec_region(&self) -> EventRect {
        self.region
    }

    fn region(&self) -> (r: EventRect) {
        self.region
    }
}

/// A call that the panel asks of its host after an event. A shape is named
/// by its index in the panel's list; a point is in world coordinates.
#[derive(Clone, Copy, Debug, PartialEq, Eq, Structural)]
pub enum HookCall {
    /// The shape at `index` was just added to the list.
    BeginCreate { index: usize, mouse_coord: Coordinate },
    /// The shape at `index` took a drag sample of its creation.
    DoingCreate { index: usize, mouse_coord: Coordinate },
    /// The creation of the shape at `index` is over.
    EndCreate { index: usize, mouse_coord: Coordinate },
    /// The host is to show a text field over `event_rect`, holding the label
    /// of the shape at `index`.
    BeginEditState { index: usize, event_rect: EventRect },
    /// The host is to write the edited text back to the shape at `index`.
    EndEditState { index: usize, mouse_coord: Coordinate },
    /// The host is to repaint.
    Flush,
}

} // verus!

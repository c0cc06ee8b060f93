//! Between the shapes and the renderer: shapes draw in world coordinates,
//! and the renderer is handed device coordinates and scaled sizes.

use crate::binder::{
    cmd_views, DrawCircleOpts, DrawCmd, DrawCmdView, DrawLineOpts, DrawRectOpts, DrawTextOpts,
    DrawTextView,
};
use crate::coord::{within, Coordinate, WORLD_MAX};
use crate::viewport::{scaled, Viewport};
use vstd::prelude::*;

verus! {

/// Collects the calls of one frame, each brought from the world to the
/// device through the viewport.
#[derive(Debug)]
pub struct DrawWrap {
    pub viewport: Viewport,
    pub commands: Vec<DrawCmd>,
}

/// Whether a length can be scaled: it is at most twice the side of the
/// world.
pub open spec fn is_size(len: int) -> bool {
    within(len, 4 * WORLD_MAX)
}

/// A line of the world as it shows on the device.
pub open spec fn shown_line(v: Viewport, opts: DrawLineOpts) -> DrawLineOpts {
    DrawLineOpts {
        from_coord: v.to_device(opts.from_coord),
        end_coord: v.to_device(opts.end_coord),
        line_size: scaled(v.scale as int, opts.line_size as int) as i64,
        line_color: opts.line_color,
    }
}

/// A rectangle of the world as it shows on the device.
pub open spec fn shown_rect(v: Viewport, opts: DrawRectOpts) -> DrawRectOpts {
    DrawRectOpts {
        left_top_coord: v.to_device(opts.left_top_coord),
        width: scaled(v.scale as int, opts.width as int) as i64,
        height: scaled(v.scale as int, opts.height as int) as i64,
        line_size: scaled(v.scale as int, opts.line_size as int) as i64,
        ..opts
    }
}

/// A circle of the world as it shows on the device.
pub open spec fn shown_circle(v: Viewport, opts: DrawCircleOpts) -> DrawCircleOpts {
    DrawCircleOpts {
        center_coord: v.to_device(opts.center_coord),
        r: scaled(v.scale as int, opts.r as int) as i64,
        line_size: scaled(v.scale as int, opts.line_size as int) as i64,
        ..opts
    }
}

/// A text of the world as it shows on the device.
pub open spec fn shown_text(v: Viewport, opts: DrawTextView) -> DrawTextView {
    DrawTextView {
        left_top_coord: v.to_device(opts.left_top_coord),
        width: scaled(v.scale as int, opts.width as int) as i64,
        height: scaled(v.scale as int, opts.height as int) as i64,
        font_size: scaled(v.scale as int, opts.font_size as int) as i64,
        font_space: scaled(v.scale as int, opts.font_space as int) as i64,
        ..opts
    }
}

/// A call in world coordinates as it shows on the device.
pub open spec fn shown(v: Viewport, cmd: DrawCmdView) -> DrawCmdView {
    match cmd {
        DrawCmdView::Line(o) => DrawCmdView::Line(shown_line(v, o)),
        DrawCmdView::Rect(o) => DrawCmdView::Rect(shown_rect(v, o)),
        DrawCmdView::Circle(o) => DrawCmdView::Circle(shown_circle(v, o)),
        DrawCmdView::Text(o) => DrawCmdView::Text(shown_text(v, o)),
    }
}

/// The calls of a list in world coordinates as they show on the device.
pub open spec fn shown_all(v: Viewport, cmds: Seq<DrawCmdView>) -> Seq<DrawCmdView> {
    Seq::new(cmds.len(), |i: int| shown(v, cmds[i]))
}

/// A circle about `center`.
pub open spec fn circle(
    center: Coordinate,
    r: int,
    line_size: int,
    line_color: u32,
    fill_color: u32,
) -> DrawCmdView {
    DrawCmdView::Circle(
        DrawCircleOpts {
            center_coord: center,
            r: r as i64,
            line_size: line_size as i64,
            line_color,
            fill_color,
        },
    )
}

/// One circle about each point of `vertices`, in order.
pub open spec fn handles(
    vertices: Seq<Coordinate>,
    r: int,
    line_size: int,
    line_color: u32,
    fill_color: u32,
) -> Seq<DrawCmdView> {
    Seq::new(vertices.len(), |i: int| circle(vertices[i], r, line_size, line_color, fill_color))
}

impl DrawWrap {
    /// The calls collected so far.
    pub open spec fn drawn(self) -> Seq<DrawCmdView> {
        cmd_views(self.commands@)
    }

    pub fn new(viewport: Viewport) -> (r: DrawWrap)
        ensures
            r.viewport == viewport,
            r.drawn() == Seq::<DrawCmdView>::empty(),
    {
        let r = DrawWrap { viewport, commands: Vec::new() };
        assert(r.drawn() =~= Seq::<DrawCmdView>::empty());
        r
    }

    /// Hands a call to the renderer as it is.
    pub fn push(&mut self, cmd: DrawCmd)
        ensures
            final(self).viewport == old(self).viewport,
            final(self).drawn() == old(self).drawn().push(cmd@),
    {
        self.commands.push(cmd);
        assert(self.drawn() =~= old(self).drawn().push(cmd@));
    }

    pub fn draw_line(&mut self, opts: DrawLineOpts)
        requires
            old(self).viewport.wf(),
            opts.from_coord.in_world(),
            opts.end_coord.in_world(),
            is_size(opts.line_size as int),
        ensures
            final(self).viewport == old(self).viewport,
            final(self).drawn() == old(self).drawn().push(
                DrawCmdView::Line(shown_line(old(self).viewport, opts)),
            ),
    {
        let from_coord = self.viewport.absolute_coord(opts.from_coord);
        let end_coord = self.viewport.absolute_coord(opts.end_coord);
        let line_size = self.viewport.scale_len(opts.line_size);
        self.push(
            DrawCmd::Line(
                DrawLineOpts { from_coord, end_coord, line_size, line_color: opts.line_color },
            ),
        );
    }

    pub fn draw_rect(&mut self, opts: DrawRectOpts)
        requires
            old(self).viewport.wf(),
            opts.left_top_coord.in_world(),
            is_size(opts.width as int),
            is_size(opts.height as int),
            is_size(opts.line_size as int),
        ensures
            final(self).viewport == old(self).viewport,
            final(self).drawn() == old(self).drawn().push(
                DrawCmdView::Rect(shown_rect(old(self).viewport, opts)),
            ),
    {
        let left_top_coord = self.viewport.absolute_coord(opts.left_top_coord);
        let width = self.viewport.scale_len(opts.width);
        let height = self.viewport.scale_len(opts.height);
        let line_size = self.viewport.scale_len(opts.line_size);
        self.push(
            DrawCmd::Rect(
                DrawRectOpts {
                    left_top_coord,
                    width,
                    height,
                    line_size,
                    line_color: opts.line_color,
                    fill_color: opts.fill_color,
                    line_style: opts.line_style,
                },
            ),
        );
    }

    pub fn draw_circle(&mut self, opts: DrawCircleOpts)
        requires
            old(self).viewport.wf(),
            opts.center_coord.in_world(),
            is_size(opts.r as int),
            is_size(opts.line_size as int),
        ensures
            final(self).viewport == old(self).viewport,
            final(self).drawn() == old(self).drawn().push(
                DrawCmdView::Circle(shown_circle(old(self).viewport, opts)),
            ),
    {
        let center_coord = self.viewport.absolute_coord(opts.center_coord);
        let r = self.viewport.scale_len(opts.r);
        let line_size = self.viewport.scale_len(opts.line_size);
        self.push(
            DrawCmd::Circle(
                DrawCircleOpts {
                    center_coord,
                    r,
                    line_size,
                    line_color: opts.line_color,
                    fill_color: opts.fill_color,
                },
            ),
        );
    }

    /// Draws one circle about each point of `vertices`.
    pub fn draw_handles(
        &mut self,
        vertices: &Vec<Coordinate>,
        r: i64,
        line_size: i64,
        line_color: u32,
        fill_color: u32,
    )
        requires
            old(self).viewport.wf(),
            forall|i: int| 0 <= i < vertices@.len() ==> (#[trigger] vertices@[i]).in_world(),
            is_size(r as int),
            is_size(line_size as int),
        ensures
            final(self).viewport == old(self).viewport,
            final(self).drawn() == old(self).drawn() + shown_all(
                old(self).viewport,
                handles(vertices@, r as int, line_size as int, line_color, fill_color),
            ),
    {
        let ghost all = shown_all(
            self.viewport,
            handles(vertices@, r as int, line_size as int, line_color, fill_color),
        );
        let mut i: usize = 0;
        while i < vertices.len()
            invariant
                i <= vertices@.len(),
                self.viewport == old(self).viewport,
                self.viewport.wf(),
                forall|j: int| 0 <= j < vertices@.len() ==> (#[trigger] vertices@[j]).in_world(),
                is_size(r as int),
                is_size(line_size as int),
                all == shown_all(
                    self.viewport,
                    handles(vertices@, r as int, line_size as int, line_color, fill_color),
                ),
                self.drawn() == old(self).drawn() + all.subrange(0, i as int),
            decreases vertices@.len() - i,
        {
            self.draw_circle(
                DrawCircleOpts {
                    center_coord: vertices[i],
                    r,
                    line_size,
                    line_color,
                    fill_color,
                },
            );
            assert(self.drawn() =~= old(self).drawn() + all.subrange(0, i + 1));
            i = i + 1;
        }
        assert(all.subrange(0, vertices@.len() as int) =~= all);
    }

    pub fn draw_text(&mut self, opts: DrawTextOpts)
        requires
            old(self).viewport.wf(),
            opts.left_top_coord.in_world(),
            is_size(opts.width as int),
            is_size(opts.height as int),
            is_size(opts.font_size as int),
            is_size(opts.font_space as int),
        ensures
            final(self).viewport == old(self).viewport,
            final(self).drawn() == old(self).drawn().push(
                DrawCmdView::Text(shown_text(old(self).viewport, opts@)),
            ),
    {
        let left_top_coord = self.viewport.absolute_coord(opts.left_top_coord);
        let width = self.viewport.scale_len(opts.width);
        let height = self.viewport.scale_len(opts.height);
        let font_size = self.viewport.scale_len(opts.font_size);
        let font_space = self.viewport.scale_len(opts.font_space);
        self.push(
            DrawCmd::Text(
                DrawTextOpts {
                    left_top_coord,
                    width,
                    height,
                    content: opts.content,
                    font_size,
                    font_space,
                    font_color: opts.font_color,
                },
            ),
        );
    }
}

} // verus!

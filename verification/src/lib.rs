//! An embeddable interactive drawing surface: shapes, a viewport that pans
//! and zooms, a mode machine driven by the pointer, and a text form of the
//! shapes.
//!
//! Everything is counted in whole numbers. Shapes live in world units, in
//! a world that reaches `WORLD_MAX` from the origin on each axis; the pointer
//! reports device units; the scale counts hundredths. The panel draws and
//! calls no host itself: `trigger_draw` returns the calls for the renderer,
//! in device units, and `trigger_event` returns the calls that the host is
//! asked to make.

pub mod binder;
pub mod codec;
pub mod coord;
pub mod decimal;
pub mod draw_wrap;
pub mod drawpanel;
pub mod elem;
pub mod geometry;
pub mod json;
pub mod panel;
pub mod state;
pub mod steady;
pub mod token;
pub mod viewport;

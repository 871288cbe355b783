//! What the tray application takes from the desktop: the work area, mouse clicks, the theme.
use vstd::prelude::*;

pub mod desktop;
pub mod fallback;
pub mod mouse_hook;
pub mod single_instance;
pub mod theme;

verus! {

/// The part of a screen that windows may cover, in pixels, and the screen's dots per inch.
/// A screen of 96 dots per inch has the scale factor one.
#[derive(Clone, Copy, Debug)]
pub struct WorkArea {
    pub left: i32,
    pub top: i32,
    pub right: i32,
    pub bottom: i32,
    pub dpi: u32,
}

/// A mouse button was pressed somewhere on the desktop.
#[derive(Clone, Copy, Debug, PartialEq, Eq, Structural)]
pub enum GlobalMouseEvent {
    ButtonDown { click_id: u64, x: i32, y: i32 },
}

/// Why no event could be received.
#[derive(Clone, Copy, Debug, PartialEq, Eq, Structural)]
pub enum TryRecvError {
    /// There is none at the moment.
    Empty,
    /// There will be none any more.
    Disconnected,
}

} // verus!

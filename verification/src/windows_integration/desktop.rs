//! The work area of the screen that the mouse is on.
use vstd::prelude::*;

use crate::windows_integration::WorkArea;

verus! {

/// The dots per inch of a screen with the scale factor one.
pub const DEFAULT_DPI: u32 = 96;

/// A rectangle on the desktop, in pixels.
#[derive(Clone, Copy, Debug)]
pub struct DesktopRect {
    pub left: i32,
    pub top: i32,
    pub right: i32,
    pub bottom: i32,
}

/// Whether a point lies in a rectangle, whose right and lower edges do not belong to it.
pub fn rect_contains(rect: &DesktopRect, x: i32, y: i32) -> (r: bool)
    ensures
        r == (rect.left <= x < rect.right && rect.top <= y < rect.bottom),
{
    rect.left <= x && x < rect.right && rect.top <= y && y < rect.bottom
}

/// What the system says about the screen that the mouse is on. Where one question was not
/// answered, what stands for the later ones is not looked at.
#[derive(Clone, Copy, Debug)]
pub struct DesktopProbe {
    /// Whether the place of the mouse is known.
    pub cursor_found: bool,
    /// The screen's handle, zero where there is none.
    pub monitor: usize,
    /// The screen's work area, where it is known.
    pub work_area: Option<DesktopRect>,
    /// The result of the question for the dots per inch, negative where it failed.
    pub dpi_result: i32,
    /// The dots per inch, from left to right.
    pub dpi_x: u32,
}

/// The dots per inch of a screen, as far as they are known.
pub open spec fn effective_dpi(result: i32, dpi_x: u32) -> u32 {
    if result >= 0 && dpi_x > 0 {
        dpi_x
    } else {
        DEFAULT_DPI
    }
}

/// The dots per inch of a screen, as far as they are known.
pub fn dpi_for_monitor(result: i32, dpi_x: u32) -> (r: u32)
    ensures
        r == effective_dpi(result, dpi_x),
        r > 0,
{
    if result >= 0 && dpi_x > 0 {
        dpi_x
    } else {
        DEFAULT_DPI
    }
}

/// The work area of the screen that the mouse is on.
pub fn work_area_near_cursor(probe: &DesktopProbe) -> (r: Option<WorkArea>)
    ensures
        r == if !probe.cursor_found || probe.monitor == 0 {
            None
        } else {
            match probe.work_area {
                None => None,
                Some(area) => Some(
                    WorkArea {
                        left: area.left,
                        top: area.top,
                        right: area.right,
                        bottom: area.bottom,
                        dpi: effective_dpi(probe.dpi_result, probe.dpi_x),
                    },
                ),
            }
        },
{
    if !probe.cursor_found || probe.monitor == 0 {
        return None;
    }
    match probe.work_area {
        None => None,
        Some(area) => Some(
            WorkArea {
                left: area.left,
                top: area.top,
                right: area.right,
                bottom: area.bottom,
                dpi: dpi_for_monitor(probe.dpi_result, probe.dpi_x),
            },
        ),
    }
}

} // verus!

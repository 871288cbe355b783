//! Where the popup stands, and when a click makes it go away.
use vstd::prelude::*;

use crate::windows_integration::desktop::DesktopRect;
use crate::windows_integration::WorkArea;

verus! {

/// How far the popup stays from the edges of the work area, in pixels.
pub const POPUP_MARGIN: i32 = 12;

/// After how many milliseconds the position of the popup is corrected, each time.
pub fn position_correction_delays_ms() -> (r: [u64; 3])
    ensures
        r@ == seq![0u64, 50u64, 200u64],
{
    [0, 50, 200]
}

/// The place nearest to `value` where something of the given size keeps the margin to both ends,
/// or to the start where it does not fit.
pub open spec fn clamped(value: int, start: int, end: int, size: int) -> int {
    let min = start + POPUP_MARGIN;
    let max = end - size - POPUP_MARGIN;
    if max < min || value < min {
        min
    } else if value > max {
        max
    } else {
        value
    }
}

/// Whether the places between which a popup of the given size stands can be computed in 32 bits.
pub open spec fn bounds_fit(start: int, end: int, size: int) -> bool {
    &&& start + POPUP_MARGIN <= i32::MAX
    &&& i32::MIN <= end - size - POPUP_MARGIN
    &&& i32::MIN <= end - size <= i32::MAX
}

/// The place nearest to `value` where something of the given size keeps the margin.
pub fn clamp_to_work_area(value: i32, start: i32, end: i32, size: i32) -> (r: i32)
    requires
        bounds_fit(start as int, end as int, size as int),
    ensures
        r == clamped(value as int, start as int, end as int, size as int),
{
    let min: i32 = start + POPUP_MARGIN;
    let max: i32 = end - size - POPUP_MARGIN;
    if max < min {
        min
    } else if value < min {
        min
    } else if value > max {
        max
    } else {
        value
    }
}

/// What fits with its margins stands inside them; everything else keeps the margin to the start.
pub proof fn popup_stays_inside_the_margins(value: int, start: int, end: int, size: int)
    ensures
        start + POPUP_MARGIN <= clamped(value, start, end, size),
        size + 2 * POPUP_MARGIN <= end - start ==> clamped(value, start, end, size) + size
            + POPUP_MARGIN <= end,
        end - start < size + 2 * POPUP_MARGIN ==> clamped(value, start, end, size) == start
            + POPUP_MARGIN,
        start + POPUP_MARGIN <= value && value + size + POPUP_MARGIN <= end ==> clamped(
            value,
            start,
            end,
            size,
        ) == value,
{
}

/// The larger of a wanted extent, the extent of the window, and one pixel.
pub open spec fn extent(wanted: i32, window: u32) -> int {
    let actual = window as i32;
    let larger = if wanted < actual {
        actual
    } else {
        wanted
    };
    if larger < 1 {
        1
    } else {
        larger as int
    }
}

/// The larger of a wanted extent, the extent of the window, and one pixel.
pub fn popup_extent(wanted: i32, window: u32) -> (r: i32)
    ensures
        r == extent(wanted, window),
{
    let actual: i32 = #[verifier::truncate]
    (window as i32);
    let larger: i32 = if wanted < actual {
        actual
    } else {
        wanted
    };
    if larger < 1 {
        1
    } else {
        larger
    }
}

/// Whether the position of a popup of the given extents can be computed in 32 bits.
pub open spec fn position_fits(area: WorkArea, width: int, height: int) -> bool {
    &&& bounds_fit(area.left as int, area.right as int, width)
    &&& bounds_fit(area.top as int, area.bottom as int, height)
}

/// The position of the popup: the lower right corner of the work area, with the margin to its
/// edges.
pub open spec fn corner(area: WorkArea, width: int, height: int) -> (int, int) {
    (
        clamped(area.right - width - POPUP_MARGIN, area.left as int, area.right as int, width),
        clamped(area.bottom - height - POPUP_MARGIN, area.top as int, area.bottom as int, height),
    )
}

/// Whether the position of a popup of the given extents can be computed.
pub fn can_position(area: &WorkArea, width: i32, height: i32) -> (r: bool)
    ensures
        r == position_fits(*area, width as int, height as int),
{
    extent_fits(area.left, area.right, width) && extent_fits(area.top, area.bottom, height)
}

/// Whether the places between which a popup stands can be computed.
fn extent_fits(start: i32, end: i32, size: i32) -> (r: bool)
    ensures
        r == bounds_fit(start as int, end as int, size as int),
{
    let first: i64 = start as i64 + 12;
    let last: i64 = end as i64 - size as i64;
    first <= 2147483647 && -2147483648 <= last - 12 && -2147483648 <= last && last <= 2147483647
}

/// The position of the popup: the lower right corner of the work area, with the margin to its
/// edges.
pub fn popup_position(area: &WorkArea, width: i32, height: i32) -> (r: (i32, i32))
    requires
        position_fits(*area, width as int, height as int),
    ensures
        r.0 == corner(*area, width as int, height as int).0,
        r.1 == corner(*area, width as int, height as int).1,
{
    let target_x: i32 = area.right - width - POPUP_MARGIN;
    let target_y: i32 = area.bottom - height - POPUP_MARGIN;
    (
        clamp_to_work_area(target_x, area.left, area.right, width),
        clamp_to_work_area(target_y, area.top, area.bottom, height),
    )
}

/// A popup that fits with its margins stands in the lower right corner of the work area, as far
/// from the right and the lower edge as the margin says, and inside the margins of the others.
pub proof fn popup_stands_in_the_corner(area: WorkArea, width: int, height: int)
    requires
        width + 2 * POPUP_MARGIN <= area.right - area.left,
        height + 2 * POPUP_MARGIN <= area.bottom - area.top,
    ensures
        corner(area, width, height).0 + width + POPUP_MARGIN == area.right,
        corner(area, width, height).1 + height + POPUP_MARGIN == area.bottom,
        area.left + POPUP_MARGIN <= corner(area, width, height).0,
        area.top + POPUP_MARGIN <= corner(area, width, height).1,
{
}

/// The height of a work area without the margins, in pixels, where it can be computed in 32 bits.
pub fn available_height(area: &WorkArea) -> (r: Option<i32>)
    ensures
        ({
            let whole = area.bottom - area.top;
            match r {
                Some(height) => height == whole - 2 * POPUP_MARGIN,
                None => whole > i32::MAX || whole - 2 * POPUP_MARGIN < i32::MIN,
            }
        }),
{
    let whole: i64 = area.bottom as i64 - area.top as i64;
    if whole > 2147483647 || whole - 24 < -2147483648 {
        None
    } else {
        Some((whole - 24) as i32)
    }
}

/// The rectangle of a window with the given position and size, where it can be computed in 32
/// bits.
pub fn popup_bounds(x: i32, y: i32, width: u32, height: u32) -> (r: Option<DesktopRect>)
    ensures
        ({
            let right = x + (width as i32);
            let bottom = y + (height as i32);
            match r {
                Some(rect) => {
                    &&& rect.left == x && rect.top == y
                    &&& rect.right == right && rect.bottom == bottom
                },
                None => !(i32::MIN <= right <= i32::MAX && i32::MIN <= bottom <= i32::MAX),
            }
        }),
{
    let width: i32 = #[verifier::truncate]
    (width as i32);
    let height: i32 = #[verifier::truncate]
    (height as i32);
    let right: i64 = x as i64 + width as i64;
    let bottom: i64 = y as i64 + height as i64;
    if right < -2147483648 || right > 2147483647 || bottom < -2147483648 || bottom > 2147483647 {
        None
    } else {
        Some(DesktopRect { left: x, top: y, right: right as i32, bottom: bottom as i32 })
    }
}

/// The tray icon of a theme.
pub fn tray_icon_for_dark_mode<'a, T>(
    dark_mode: bool,
    light_icon: &'a T,
    dark_icon: &'a T,
) -> (r: &'a T)
    ensures
        r == if dark_mode {
            dark_icon
        } else {
            light_icon
        },
{
    if dark_mode {
        dark_icon
    } else {
        light_icon
    }
}

/// What a watcher for clicks outside the popup remembers.
pub struct OutsideClickModel {
    pub left_button_was_down: bool,
    pub click_started_inside_popup: bool,
}

/// What the watcher sees when it looks.
#[derive(Clone, Copy, Debug)]
pub struct OutsideClickReading {
    /// Whether there is a popup and it is visible.
    pub popup_visible: bool,
    /// Whether the left mouse button is down.
    pub left_button_down: bool,
    /// Whether the mouse is inside the popup.
    pub cursor_inside: bool,
}

/// What to do after the watcher looked.
#[derive(Clone, Copy, Debug, PartialEq, Eq, Structural)]
pub enum OutsideClickStep {
    /// Go on watching.
    Watch,
    /// Stop watching.
    Stop,
    /// Hide the popup, and stop watching.
    Hide,
}

impl OutsideClickModel {
    /// Whether the click that goes on, or that starts now, started inside the popup.
    pub open spec fn started_inside(self, reading: OutsideClickReading) -> bool {
        if reading.left_button_down && !self.left_button_was_down {
            reading.cursor_inside
        } else {
            self.click_started_inside_popup
        }
    }

    /// What to do: the popup is hidden by a click that neither starts nor ends inside it.
    pub open spec fn step(self, reading: OutsideClickReading) -> OutsideClickStep {
        if !reading.popup_visible {
            OutsideClickStep::Stop
        } else if !reading.left_button_down && self.left_button_was_down
            && !self.click_started_inside_popup && !reading.cursor_inside {
            OutsideClickStep::Hide
        } else {
            OutsideClickStep::Watch
        }
    }

    /// What the watcher remembers then.
    pub open spec fn after(self, reading: OutsideClickReading) -> OutsideClickModel {
        if !reading.popup_visible {
            OutsideClickModel { click_started_inside_popup: false, ..self }
        } else {
            OutsideClickModel {
                left_button_was_down: reading.left_button_down,
                click_started_inside_popup: if self.step(reading) == OutsideClickStep::Hide {
                    false
                } else {
                    self.started_inside(reading)
                },
            }
        }
    }

    /// What the watcher remembers after it looked several times.
    pub open spec fn after_all(self, readings: Seq<OutsideClickReading>) -> OutsideClickModel
        decreases readings.len(),
    {
        if readings.len() == 0 {
            self
        } else {
            self.after_all(readings.drop_last()).after(readings.last())
        }
    }
}

/// Watches for clicks outside the popup.
#[derive(Clone, Copy, Debug)]
pub struct OutsideClickWatcher {
    left_button_was_down: bool,
    click_started_inside_popup: bool,
}

impl View for OutsideClickWatcher {
    type V = OutsideClickModel;

    closed spec fn view(&self) -> OutsideClickModel {
        OutsideClickModel {
            left_button_was_down: self.left_button_was_down,
            click_started_inside_popup: self.click_started_inside_popup,
        }
    }
}

impl OutsideClickWatcher {
    /// A watcher that starts while the left button is down, or not.
    pub fn new(left_button_down: bool) -> (r: Self)
        ensures
            r@ == (OutsideClickModel {
                left_button_was_down: left_button_down,
                click_started_inside_popup: false,
            }),
    {
        OutsideClickWatcher {
            left_button_was_down: left_button_down,
            click_started_inside_popup: false,
        }
    }

    /// Starts to watch while the left button is down, or not.
    pub fn start(&mut self, left_button_down: bool)
        ensures
            final(self)@ == (OutsideClickModel {
                left_button_was_down: left_button_down,
                click_started_inside_popup: false,
            }),
    {
        self.left_button_was_down = left_button_down;
        self.click_started_inside_popup = false;
    }

    /// Takes note of the left button without looking for a click.
    pub fn set_left_button(&mut self, left_button_down: bool)
        ensures
            final(self)@ == (OutsideClickModel {
                left_button_was_down: left_button_down,
                ..old(self)@
            }),
    {
        self.left_button_was_down = left_button_down;
    }

    /// Stops to watch.
    pub fn stop(&mut self)
        ensures
            final(self)@ == (OutsideClickModel { click_started_inside_popup: false, ..old(self)@ }),
    {
        self.click_started_inside_popup = false;
    }

    /// Looks for a click outside the popup.
    pub fn poll(&mut self, reading: OutsideClickReading) -> (r: OutsideClickStep)
        ensures
            r == old(self)@.step(reading),
            final(self)@ == old(self)@.after(reading),
    {
        let left_button_went_down = reading.left_button_down && !self.left_button_was_down;
        let left_button_went_up = !reading.left_button_down && self.left_button_was_down;
        if !reading.popup_visible {
            self.stop();
            return OutsideClickStep::Stop;
        }
        if left_button_went_down {
            self.click_started_inside_popup = reading.cursor_inside;
        }
        let mut step = OutsideClickStep::Watch;
        if left_button_went_up && !self.click_started_inside_popup && !reading.cursor_inside {
            self.stop();
            step = OutsideClickStep::Hide;
        }
        self.left_button_was_down = reading.left_button_down;
        step
    }
}

/// The button stays down while the popup stays visible, so nothing happens and what is known of
/// the click stays the same.
pub proof fn holding_the_button_changes_nothing(
    state: OutsideClickModel,
    held: Seq<OutsideClickReading>,
)
    requires
        state.left_button_was_down,
        forall|i: int|
            0 <= i < held.len() ==> (#[trigger] held[i]).popup_visible
                && held[i].left_button_down,
    ensures
        state.after_all(held) == state,
        forall|reading: OutsideClickReading|
            reading.popup_visible && reading.left_button_down ==> #[trigger] state.step(reading)
                == OutsideClickStep::Watch,
    decreases held.len(),
{
    if held.len() > 0 {
        let earlier = held.drop_last();
        assert forall|i: int| 0 <= i < earlier.len() implies (#[trigger] earlier[i]).popup_visible
            && earlier[i].left_button_down by {
            assert(earlier[i] == held[i]);
        }
        holding_the_button_changes_nothing(state, earlier);
        assert(held[held.len() - 1].popup_visible);
    }
}

/// A click hides the popup if and only if it starts and ends outside, however long the button is
/// held.
pub proof fn only_clicks_outside_hide_the_popup(
    state: OutsideClickModel,
    press: OutsideClickReading,
    held: Seq<OutsideClickReading>,
    release: OutsideClickReading,
)
    requires
        !state.left_button_was_down,
        press.popup_visible && press.left_button_down,
        forall|i: int|
            0 <= i < held.len() ==> (#[trigger] held[i]).popup_visible
                && held[i].left_button_down,
        release.popup_visible && !release.left_button_down,
    ensures
        state.step(press) == OutsideClickStep::Watch,
        state.after(press).after_all(held).step(release) == if press.cursor_inside
            || release.cursor_inside {
            OutsideClickStep::Watch
        } else {
            OutsideClickStep::Hide
        },
{
    holding_the_button_changes_nothing(state.after(press), held);
}

} // verus!

//! The popup, clicks, the single instance, and the work area.
use vstd::prelude::*;

use crate::popup::{
    bounds_fit, clamped, corner, extent, position_fits, OutsideClickModel, OutsideClickReading,
    OutsideClickStep,
};
use crate::windows_integration::desktop::effective_dpi;
use crate::windows_integration::mouse_hook::{
    click_after, hook_start_error, ButtonReading, HookModel, HookStart, PollingModel,
};
use crate::windows_integration::single_instance::{instance_result, SingleInstanceGuard};
use crate::windows_integration::{GlobalMouseEvent, WorkArea};

verus! {

/// A place is moved no farther than the margins ask: it stays where it keeps them, and else becomes
/// the nearer of the two that just do. Where there is no room, the margin to the start is kept.
pub proof fn places_keep_the_margins(value: int, start: int, end: int, size: int)
    ensures
        ({
            let first = start + 12;
            let last = end - size - 12;
            let place = clamped(value, start, end, size);
            &&& first <= value <= last ==> place == value
            &&& first <= last && value < first ==> place == first
            &&& first <= last && value > last ==> place == last
            &&& last < first ==> place == first
        }),
{
}

/// The popup stands at the right and at the lower margin where it fits, and at the left and at the
/// upper one where it does not.
pub proof fn corner_of_the_popup(area: WorkArea, width: int, height: int)
    ensures
        width + 24 <= area.right - area.left ==> corner(area, width, height).0 == area.right - width
            - 12,
        width + 24 > area.right - area.left ==> corner(area, width, height).0 == area.left + 12,
        height + 24 <= area.bottom - area.top ==> corner(area, width, height).1 == area.bottom
            - height - 12,
        height + 24 > area.bottom - area.top ==> corner(area, width, height).1 == area.top + 12,
{
}

/// A position can be computed where nothing on the way leaves 32 bits.
pub proof fn positions_that_can_be_computed(area: WorkArea, width: int, height: int)
    requires
        area.left + 12 <= i32::MAX,
        area.top + 12 <= i32::MAX,
        i32::MIN + 12 <= area.right - width <= i32::MAX,
        i32::MIN + 12 <= area.bottom - height <= i32::MAX,
    ensures
        position_fits(area, width, height),
        bounds_fit(area.left as int, area.right as int, width),
{
}

/// The extent of the popup is the largest of the wanted one, that of the window, and one pixel.
pub proof fn extent_is_the_largest(wanted: i32, window: u32)
    ensures
        extent(wanted, window) >= 1,
        extent(wanted, window) >= wanted,
        extent(wanted, window) >= window as i32,
        extent(wanted, window) == 1 || extent(wanted, window) == wanted || extent(wanted, window)
            == window as i32,
{
}

/// The popup is hidden exactly when the left button is let go outside it after a click that did not
/// start inside; it is watched no more once it is gone.
pub proof fn popup_is_hidden_by_clicks_outside(
    state: OutsideClickModel,
    reading: OutsideClickReading,
)
    ensures
        state.step(reading) == OutsideClickStep::Stop <==> !reading.popup_visible,
        state.step(reading) == OutsideClickStep::Hide <==> {
            &&& reading.popup_visible
            &&& state.left_button_was_down && !reading.left_button_down
            &&& !state.click_started_inside_popup
            &&& !reading.cursor_inside
        },
{
}

/// The watcher remembers the button as it was seen, and where the last press was made.
pub proof fn watcher_remembers_the_press(state: OutsideClickModel, reading: OutsideClickReading)
    ensures
        reading.popup_visible ==> state.after(reading).left_button_was_down
            == reading.left_button_down,
        reading.popup_visible && reading.left_button_down && !state.left_button_was_down
            ==> state.after(reading).click_started_inside_popup == reading.cursor_inside,
        reading.popup_visible && reading.left_button_down == state.left_button_was_down
            ==> state.after(reading) == state,
        !reading.popup_visible ==> !state.after(reading).click_started_inside_popup
            && state.after(reading).left_button_was_down == state.left_button_was_down,
        state.step(reading) == OutsideClickStep::Hide ==> !state.after(
            reading,
        ).click_started_inside_popup,
{
}

/// Readings are taken one by one, in their order.
pub proof fn readings_are_taken_in_order(
    state: OutsideClickModel,
    readings: Seq<OutsideClickReading>,
    reading: OutsideClickReading,
)
    ensures
        state.after_all(seq![]) == state,
        state.after_all(readings.push(reading)) == state.after_all(readings).after(reading),
{
    assert(readings.push(reading).drop_last() =~= readings);
}

/// A press of the left, the right or the middle button that reaches the hook is counted, and its
/// event waits behind the others, with the place of the press, while fewer than 64 wait. Nothing
/// else that reaches the hook changes anything.
pub proof fn presses_are_counted_and_wait(
    state: HookModel,
    code: i32,
    message: u32,
    x: i32,
    y: i32,
)
    ensures
        ({
            let later = state.observed(code, message, x, y);
            let press = code >= 0 && (message == 0x201 || message == 0x204 || message == 0x207);
            &&& !press ==> later == state
            &&& press ==> {
                &&& later.latest_click_id > 0
                &&& state.next_click_id < u64::MAX ==> later.latest_click_id
                    == state.next_click_id + 1 && later.next_click_id == state.next_click_id + 1
                &&& state.events.len() < 64 ==> later.events == state.events.push(
                    GlobalMouseEvent::ButtonDown { click_id: later.latest_click_id, x, y },
                )
                &&& state.events.len() >= 64 ==> later.events == state.events
            }
        }),
{
}

/// Whether a reading of a button is a click at a known place: the button has gone down, or has been
/// down in between.
pub open spec fn is_click(was_pressed: bool, reading: ButtonReading) -> bool {
    ((reading.state < 0 && !was_pressed) || reading.state % 2 != 0) && reading.cursor is Some
}

/// A round of polling looks at the buttons in their order, up to the first click, which it reports
/// with its place. The buttons behind it are not looked at. A round without a click looks at all
/// and counts nothing.
pub proof fn first_click_of_a_round_is_reported(
    watcher: PollingModel,
    readings: Seq<ButtonReading>,
    from: int,
    click: int,
)
    requires
        0 <= from <= click <= readings.len(),
        watcher.pressed.len() == readings.len(),
        forall|k: int|
            from <= k < click ==> !is_click(#[trigger] watcher.pressed[k], readings[k]),
        click < readings.len() ==> is_click(watcher.pressed[click], readings[click]),
    ensures
        ({
            let (next, event) = watcher.polled(readings, from);
            &&& next.pressed.len() == watcher.pressed.len()
            &&& forall|k: int|
                0 <= k < readings.len() ==> #[trigger] next.pressed[k] == if from <= k <= click {
                    readings[k].state < 0
                } else {
                    watcher.pressed[k]
                }
            &&& click == readings.len() ==> {
                &&& event is None
                &&& next.next_click_id == watcher.next_click_id
                &&& next.latest_click_id == watcher.latest_click_id
            }
            &&& click < readings.len() ==> {
                &&& event == Some(
                    GlobalMouseEvent::ButtonDown {
                        click_id: next.latest_click_id,
                        x: readings[click].cursor->Some_0.0,
                        y: readings[click].cursor->Some_0.1,
                    },
                )
                &&& next.next_click_id == next.latest_click_id
                &&& next.latest_click_id > 0
                &&& watcher.next_click_id < u64::MAX ==> next.latest_click_id
                    == watcher.next_click_id + 1
            }
        }),
    decreases readings.len() - from,
{
    if from < readings.len() {
        assert(watcher.reports(from, readings[from]) == is_click(
            watcher.pressed[from],
            readings[from],
        ));
        if from < click {
            let next = watcher.sampled(from, readings[from].state);
            assert forall|k: int| from + 1 <= k < click implies !is_click(
                #[trigger] next.pressed[k],
                readings[k],
            ) by {
                assert(next.pressed[k] == watcher.pressed[k]);
            }
            first_click_of_a_round_is_reported(next, readings, from + 1, click);
        }
    }
}

/// Draining polls round by round, up to the first that reports no click.
pub proof fn draining_ends_with_a_quiet_round(
    watcher: PollingModel,
    round: Seq<ButtonReading>,
    polls: Seq<Seq<ButtonReading>>,
)
    ensures
        watcher.drained(seq![]) == watcher,
        watcher.polled(round, 0).1 is Some ==> watcher.drained(seq![round] + polls)
            == watcher.polled(round, 0).0.drained(polls),
        watcher.polled(round, 0).1 is None ==> watcher.drained(seq![round] + polls)
            == watcher.polled(round, 0).0,
{
    assert((seq![round] + polls).drop_first() =~= polls);
}

/// The number after a click is the next one, and never zero.
pub proof fn clicks_are_numbered(n: u64)
    ensures
        click_after(n) > 0,
        n < u64::MAX ==> click_after(n) == n + 1,
{
}

/// A hook is in place exactly where its thread says so, and every other end of its start has a
/// reason.
pub proof fn hooks_that_are_not_in_place_say_why(start: HookStart)
    ensures
        hook_start_error(start) is None <==> start is Installed,
        start matches HookStart::SpawnFailed(error) ==> hook_start_error(start) == Some(
            "failed to start mouse hook: "@ + error@,
        ),
        start matches HookStart::NotReady(error) ==> hook_start_error(start) == Some(
            "mouse hook did not initialize: "@ + error@,
        ),
        start matches HookStart::Refused(error) ==> hook_start_error(start) == Some(error@),
{
}

/// An instance is the only one exactly where it has a handle of the mutex that nobody had before
/// it, and then it holds that handle. Without a handle there is an error, and beside another
/// instance neither.
pub proof fn instance_that_is_the_only_one(handle: usize, error: u32)
    ensures
        instance_result(handle, error) matches Ok(Some(_)) <==> handle != 0 && error != 183,
        instance_result(handle, error) matches Ok(Some(guard)) ==> guard == (SingleInstanceGuard {
            handle,
        }),
        instance_result(handle, error) == Ok::<Option<SingleInstanceGuard>, i32>(None) <==> handle
            != 0 && error == 183,
        instance_result(handle, error) is Err <==> handle == 0,
        handle == 0 ==> instance_result(handle, error)->Err_0 == error as i32,
{
}

/// The dots per inch are those that the system tells, where it tells some, and else 96.
pub proof fn dots_per_inch(result: i32, dpi_x: u32)
    ensures
        result >= 0 && dpi_x > 0 ==> effective_dpi(result, dpi_x) == dpi_x,
        result < 0 || dpi_x == 0 ==> effective_dpi(result, dpi_x) == 96,
{
}

} // verus!

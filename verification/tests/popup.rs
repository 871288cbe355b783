use mmb::popup::{
    available_height, can_position, clamp_to_work_area, popup_bounds, popup_extent,
    popup_position, position_correction_delays_ms, tray_icon_for_dark_mode, OutsideClickReading,
    OutsideClickStep, OutsideClickWatcher,
};
use mmb::windows_integration::WorkArea;

#[test]
fn popup_position_stays_inside_the_work_area_margin() {
    assert_eq!(clamp_to_work_area(900, 0, 1000, 100), 888);
    assert_eq!(clamp_to_work_area(-50, 0, 1000, 100), 12);
    assert_eq!(clamp_to_work_area(400, 0, 1000, 100), 400);
}

#[test]
fn a_popup_that_does_not_fit_keeps_the_margin_to_the_start() {
    assert_eq!(clamp_to_work_area(50, 0, 100, 90), 12);
    assert_eq!(clamp_to_work_area(50, 0, 124, 100), 12);
}

fn area() -> WorkArea {
    WorkArea {
        left: -1920,
        top: 0,
        right: 0,
        bottom: 1040,
        dpi: 96,
    }
}

#[test]
fn the_popup_stands_in_the_lower_right_corner() {
    assert!(can_position(&area(), 348, 227));
    assert_eq!(popup_position(&area(), 348, 227), (-360, 801));
    assert_eq!(popup_position(&area(), 3000, 2000), (-1908, 12));
}

#[test]
fn positions_beyond_the_range_are_told_apart() {
    let far = WorkArea {
        left: i32::MAX,
        right: i32::MAX,
        ..area()
    };
    assert!(!can_position(&far, 1, 1));
    let low = WorkArea {
        right: i32::MIN,
        ..area()
    };
    assert!(!can_position(&low, 1, 1));
}

#[test]
fn the_extent_is_the_largest_and_never_empty() {
    assert_eq!(popup_extent(348, 300), 348);
    assert_eq!(popup_extent(348, 400), 400);
    assert_eq!(popup_extent(-5, 0), 1);
    assert_eq!(popup_extent(10, u32::MAX), 10);
}

#[test]
fn the_available_height_leaves_both_margins() {
    assert_eq!(available_height(&area()), Some(1016));
    let tall = WorkArea {
        top: i32::MIN,
        bottom: i32::MAX,
        ..area()
    };
    assert_eq!(available_height(&tall), None);
    let flat = WorkArea {
        top: i32::MAX,
        bottom: 0,
        ..area()
    };
    assert_eq!(available_height(&flat), None);
    let empty = WorkArea {
        bottom: 0,
        ..area()
    };
    assert_eq!(available_height(&empty), Some(-24));
}

#[test]
fn the_bounds_of_a_window_follow_from_its_position_and_size() {
    let bounds = popup_bounds(10, 20, 300, 200).unwrap();
    assert_eq!(
        (bounds.left, bounds.top, bounds.right, bounds.bottom),
        (10, 20, 310, 220)
    );
    assert!(popup_bounds(i32::MAX, 0, 1, 1).is_none());
}

#[test]
fn the_position_is_corrected_three_times() {
    assert_eq!(position_correction_delays_ms(), [0, 50, 200]);
}

#[test]
fn the_tray_icon_follows_the_theme() {
    assert_eq!(tray_icon_for_dark_mode(true, &"light", &"dark"), &"dark");
    assert_eq!(tray_icon_for_dark_mode(false, &"light", &"dark"), &"light");
}

fn reading(left_button_down: bool, cursor_inside: bool) -> OutsideClickReading {
    OutsideClickReading {
        popup_visible: true,
        left_button_down,
        cursor_inside,
    }
}

#[test]
fn a_click_outside_hides_the_popup() {
    let mut watcher = OutsideClickWatcher::new(false);
    assert_eq!(watcher.poll(reading(true, false)), OutsideClickStep::Watch);
    assert_eq!(watcher.poll(reading(true, false)), OutsideClickStep::Watch);
    assert_eq!(watcher.poll(reading(false, false)), OutsideClickStep::Hide);
    assert_eq!(watcher.poll(reading(false, false)), OutsideClickStep::Watch);
}

#[test]
fn a_click_that_starts_or_ends_inside_keeps_the_popup() {
    let mut watcher = OutsideClickWatcher::new(false);
    assert_eq!(watcher.poll(reading(true, true)), OutsideClickStep::Watch);
    assert_eq!(watcher.poll(reading(true, false)), OutsideClickStep::Watch);
    assert_eq!(watcher.poll(reading(false, false)), OutsideClickStep::Watch);
    assert_eq!(watcher.poll(reading(true, false)), OutsideClickStep::Watch);
    assert_eq!(watcher.poll(reading(false, true)), OutsideClickStep::Watch);
}

#[test]
fn a_popup_that_is_gone_is_not_watched() {
    let mut watcher = OutsideClickWatcher::new(true);
    let gone = OutsideClickReading {
        popup_visible: false,
        left_button_down: false,
        cursor_inside: false,
    };
    assert_eq!(watcher.poll(gone), OutsideClickStep::Stop);
    assert_eq!(watcher.poll(reading(false, false)), OutsideClickStep::Hide);
    watcher.start(true);
    watcher.set_left_button(false);
    assert_eq!(watcher.poll(reading(false, false)), OutsideClickStep::Watch);
    watcher.stop();
}

use mmb::windows_integration::desktop::{
    dpi_for_monitor, rect_contains, work_area_near_cursor, DesktopProbe, DesktopRect,
};
use mmb::windows_integration::fallback;
use mmb::windows_integration::mouse_hook::{
    button_click_observed, hook_thread_step, ButtonReading, GlobalMouseWatcher, HookSlot,
    HookStart, HookThreadStep, MouseWatcherError, WM_LBUTTONDOWN, WM_MBUTTONDOWN, WM_RBUTTONDOWN,
};
use mmb::windows_integration::single_instance::{
    acquire_single_instance, closes_handle, instance_mutex_name, ERROR_ALREADY_EXISTS,
};
use mmb::windows_integration::{GlobalMouseEvent, TryRecvError};

#[test]
fn polling_detects_pressed_and_completed_clicks() {
    assert!(button_click_observed(false, i16::MIN));
    assert!(button_click_observed(false, 1));
    assert!(!button_click_observed(true, i16::MIN));
    assert!(!button_click_observed(false, 0));
}

fn down(click_id: u64, x: i32, y: i32) -> Result<GlobalMouseEvent, TryRecvError> {
    Ok(GlobalMouseEvent::ButtonDown { click_id, x, y })
}

#[test]
fn the_hook_hands_out_clicks_in_order() {
    let mut watcher = GlobalMouseWatcher::new(HookStart::Installed).unwrap();
    assert_eq!(watcher.latest_click_id(), 0);
    watcher.observe(0, WM_LBUTTONDOWN as usize, 1, 2);
    watcher.observe(-1, WM_LBUTTONDOWN as usize, 3, 4);
    watcher.observe(0, 0x0200, 5, 6);
    watcher.observe(0, WM_RBUTTONDOWN as usize, 7, 8);
    watcher.observe(0, WM_MBUTTONDOWN as usize, 9, -10);
    assert_eq!(watcher.latest_click_id(), 3);
    assert_eq!(watcher.try_recv(&[]), down(1, 1, 2));
    assert_eq!(watcher.try_recv(&[]), down(2, 7, 8));
    watcher.drain(&[]);
    assert_eq!(watcher.try_recv(&[]), Err(TryRecvError::Empty));
    assert_eq!(watcher.latest_click_id(), 3);
}

#[test]
fn clicks_count_though_there_is_no_room_for_them() {
    let mut watcher = GlobalMouseWatcher::new(HookStart::Installed).unwrap();
    for click in 0..70 {
        watcher.observe(0, WM_LBUTTONDOWN as usize, click, 0);
    }
    assert_eq!(watcher.latest_click_id(), 70);
    let mut received = 0;
    while let Ok(GlobalMouseEvent::ButtonDown { click_id, .. }) = watcher.try_recv(&[]) {
        received += 1;
        assert_eq!(click_id, received);
    }
    assert_eq!(received, 64);
}

fn sample(state: i16) -> ButtonReading {
    ButtonReading {
        state,
        cursor: Some((5, 6)),
    }
}

#[test]
fn polling_reports_each_click_once() {
    let mut watcher = GlobalMouseWatcher::polling(0, i16::MIN, 0);
    let held = [sample(0), sample(i16::MIN), sample(0)];
    assert_eq!(watcher.try_recv(&held), Err(TryRecvError::Empty));
    let pressed = [sample(i16::MIN), sample(1), sample(0)];
    assert_eq!(watcher.try_recv(&pressed), down(1, 5, 6));
    assert_eq!(watcher.try_recv(&pressed), down(2, 5, 6));
    assert_eq!(watcher.latest_click_id(), 2);
    let lost = ButtonReading {
        state: 1,
        cursor: None,
    };
    assert_eq!(
        watcher.try_recv(&[lost, sample(0), sample(0)]),
        Err(TryRecvError::Empty)
    );
    let quiet = vec![sample(0), sample(0), sample(0)];
    watcher.drain(&[pressed.to_vec(), pressed.to_vec(), quiet, pressed.to_vec()]);
    assert_eq!(watcher.latest_click_id(), 4);
}

fn refusal(start: HookStart) -> String {
    GlobalMouseWatcher::new(start).err().unwrap().to_string()
}

#[test]
fn a_hook_that_cannot_be_installed_is_told() {
    assert_eq!(
        refusal(HookStart::SpawnFailed("x".into())),
        "failed to start mouse hook: x"
    );
    assert_eq!(
        refusal(HookStart::NotReady("y".into())),
        "mouse hook did not initialize: y"
    );
    assert_eq!(refusal(HookStart::Refused("z".into())), "z");
    assert_eq!(MouseWatcherError::new("w".into()).to_string(), "w");
    assert!(matches!(
        hook_thread_step(0, 5, false),
        HookThreadStep::Refuse(message) if message == "SetWindowsHookExW failed (win32 error 5)"
    ));
    assert!(matches!(
        hook_thread_step(1, 0, true),
        HookThreadStep::UnhookAndRefuse(message) if message == "mouse hook was already initialized"
    ));
    assert!(matches!(hook_thread_step(1, 0, false), HookThreadStep::Ready));
}

#[test]
fn only_one_instance_gets_the_mutex() {
    assert_eq!(instance_mutex_name(), "Local\\MMB.SingleInstance");
    assert_eq!(acquire_single_instance(0, 5), Err(5));
    assert_eq!(acquire_single_instance(0, u32::MAX), Err(-1));
    assert_eq!(acquire_single_instance(7, ERROR_ALREADY_EXISTS), Ok(None));
    assert_eq!(acquire_single_instance(7, 0).unwrap().unwrap().handle, 7);
}

fn probe() -> DesktopProbe {
    DesktopProbe {
        cursor_found: true,
        monitor: 1,
        work_area: Some(DesktopRect {
            left: 1,
            top: 2,
            right: 3,
            bottom: 4,
        }),
        dpi_result: 0,
        dpi_x: 144,
    }
}

#[test]
fn the_work_area_is_known_where_everything_was_answered() {
    let area = work_area_near_cursor(&probe()).unwrap();
    assert_eq!(
        (area.left, area.top, area.right, area.bottom, area.dpi),
        (1, 2, 3, 4, 144)
    );
    for silent in [
        DesktopProbe {
            cursor_found: false,
            ..probe()
        },
        DesktopProbe {
            monitor: 0,
            ..probe()
        },
        DesktopProbe {
            work_area: None,
            ..probe()
        },
    ] {
        assert!(work_area_near_cursor(&silent).is_none());
    }
    assert_eq!(dpi_for_monitor(-1, 144), 96);
    assert_eq!(dpi_for_monitor(0, 0), 96);
}

#[test]
fn without_windows_there_is_no_desktop() {
    assert!(fallback::GlobalMouseWatcher::new().is_err());
    let mut watcher = fallback::GlobalMouseWatcher::polling();
    assert_eq!(watcher.try_recv(), Err(TryRecvError::Empty));
    watcher.drain();
    assert_eq!(watcher.latest_click_id(), 0);
    assert!(fallback::work_area_near_cursor().is_none());
    assert!(matches!(fallback::acquire_single_instance(), Ok(Some(_))));
    assert_eq!(
        fallback::windows_main_dark_mode().unwrap_err().to_string(),
        "Windows integration is only supported on Windows"
    );
    assert!(fallback::next_windows_dark_mode().is_err());
    assert!(fallback::set_windows_dark_mode(true).is_err());
}

#[test]
fn a_process_keeps_one_hook() {
    let mut slot = HookSlot::new();
    assert!(matches!(
        slot.start(0, 5),
        HookThreadStep::Refuse(message) if message == "SetWindowsHookExW failed (win32 error 5)"
    ));
    assert!(matches!(slot.start(7, 0), HookThreadStep::Ready));
    for hook in [8, 7] {
        assert!(matches!(slot.start(hook, 0), HookThreadStep::UnhookAndRefuse(_)));
    }
    assert!(matches!(slot.start(0, 5), HookThreadStep::Refuse(_)));
}

#[test]
fn a_refused_instance_does_not_keep_the_name_taken() {
    let mut open_handles = 0;
    let attempt = |open_handles: &mut u32| {
        let error = if *open_handles > 0 { ERROR_ALREADY_EXISTS } else { 0 };
        *open_handles += 1;
        if closes_handle(7, error) {
            *open_handles -= 1;
        }
        acquire_single_instance(7, error).unwrap()
    };
    let guard = attempt(&mut open_handles);
    assert!(guard.is_some());
    assert!(attempt(&mut open_handles).is_none());
    assert!(attempt(&mut open_handles).is_none());
    assert_eq!(open_handles, 1);
    open_handles -= 1;
    assert!(attempt(&mut open_handles).is_some());
    assert!(!closes_handle(0, ERROR_ALREADY_EXISTS));
    assert!(!closes_handle(7, 0));
}

#[test]
fn a_rectangle_ends_before_its_right_and_lower_edge() {
    let rect = DesktopRect {
        left: -10,
        top: 0,
        right: 10,
        bottom: 5,
    };
    assert!(rect_contains(&rect, -10, 0));
    assert!(rect_contains(&rect, 9, 4));
    assert!(!rect_contains(&rect, 10, 4));
    assert!(!rect_contains(&rect, 9, 5));
    assert!(!rect_contains(&rect, -11, 0));
    assert!(!rect_contains(&rect, 0, -1));
}

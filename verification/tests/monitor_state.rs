use mmb::monitor_control::wmi::{WmiDiscovery, WmiMonitor};
use mmb::monitor_control::{MonitorError, MonitorId, MonitorSnapshot};
use mmb::monitor_hardware::windows::{ApplyOutcome, ApplyReport, MonitorController};
use mmb::monitor_state::{brightness_after_scroll, can_scroll, MonitorState};
use slint::Model;

#[test]
fn scroll_snaps_to_the_next_five_percent_step() {
    assert_eq!(brightness_after_scroll(73, 5), 75);
    assert_eq!(brightness_after_scroll(73, -5), 70);
    assert_eq!(brightness_after_scroll(75, 5), 80);
    assert_eq!(brightness_after_scroll(75, -5), 70);
}

#[test]
fn scroll_clamps_to_the_brightness_range() {
    assert_eq!(brightness_after_scroll(100, 5), 100);
    assert_eq!(brightness_after_scroll(0, -5), 0);
}

#[test]
fn scroll_from_outside_the_range_comes_back_to_it() {
    assert_eq!(brightness_after_scroll(255, -1), 100);
    assert_eq!(brightness_after_scroll(-3, 1), 5);
    assert_eq!(brightness_after_scroll(-7, 1), 0);
    assert_eq!(brightness_after_scroll(i32::MIN, -1), 0);
    assert_eq!(brightness_after_scroll(2147483644, 1), 100);
    assert!(!can_scroll(2147483645, 1));
    assert_eq!(brightness_after_scroll(2147483643, 0), 100);
    assert!(!can_scroll(2147483644, 0));
}

#[test]
fn scroll_back_from_a_step_leads_back_to_it() {
    for step in (0..100).step_by(5) {
        assert_eq!(brightness_after_scroll(brightness_after_scroll(step, 1), -1), step);
    }
}

#[test]
fn failed_apply_restores_the_previous_value() {
    let id = MonitorId::new("wmi:test");
    let mut state = MonitorState::new();
    state.replace_snapshots(vec![MonitorSnapshot {
        id: id.clone(),
        name: "Test".into(),
        brightness: 40,
    }]);
    state.update_brightness(id.to_ui(), 75, false);
    state.take_pending();

    let errors = state.reconcile_apply_report(ApplyReport {
        outcomes: vec![ApplyOutcome {
            id,
            requested: 75,
            effective: Some(40),
            error: Some("test failure".into()),
        }],
    });

    assert_eq!(errors.len(), 1);
    assert_eq!(state.model().row_data(0).unwrap().brightness, 40);
}

#[test]
fn failed_old_apply_does_not_overwrite_a_newer_change() {
    let id = MonitorId::new("wmi:test");
    let mut state = MonitorState::new();
    state.replace_snapshots(vec![MonitorSnapshot {
        id: id.clone(),
        name: "Test".into(),
        brightness: 40,
    }]);
    state.update_brightness(id.to_ui(), 75, false);
    state.take_pending();
    state.update_brightness(id.to_ui(), 80, false);

    state.reconcile_apply_report(ApplyReport {
        outcomes: vec![ApplyOutcome {
            id,
            requested: 75,
            effective: Some(40),
            error: Some("test failure".into()),
        }],
    });

    assert_eq!(state.model().row_data(0).unwrap().brightness, 80);
}

fn snapshot(id: &str, brightness: i32) -> MonitorSnapshot {
    MonitorSnapshot {
        id: MonitorId::new(id),
        name: format!("Monitor {id}"),
        brightness,
    }
}

fn three_monitors() -> MonitorState {
    let mut state = MonitorState::new();
    state.replace_snapshots(vec![snapshot("a", 10), snapshot("b", 20), snapshot("c", 30)]);
    state
}

fn pending(state: &mut MonitorState) -> Vec<(String, i32)> {
    let mut updates: Vec<(String, i32)> = state
        .take_pending()
        .into_iter()
        .map(|update| (update.id.to_ui().to_string(), update.value))
        .collect();
    updates.sort();
    updates
}

fn shown(state: &MonitorState) -> Vec<i32> {
    (0..state.monitor_count())
        .map(|row| state.model().row_data(row).unwrap().brightness)
        .collect()
}

#[test]
fn the_rows_are_those_of_the_snapshots() {
    let mut state = MonitorState::new();
    assert!(!state.has_monitors());
    assert_eq!(state.model().row_count(), 0);
    state.replace_snapshots(vec![snapshot("a", 10), snapshot("b", 20)]);
    assert!(state.has_monitors());
    assert_eq!(state.monitor_count(), 2);
    let row = state.model().row_data(1).unwrap();
    assert_eq!((row.id.as_str(), row.name.as_str(), row.brightness), ("b", "Monitor b", 20));
    assert!(state.model().row_data(2).is_none());
    assert_eq!(state.brightness_for_monitor("a"), Some(10));
    assert_eq!(state.brightness_for_monitor("x"), None);
}

#[test]
fn a_synchronized_change_reaches_every_monitor() {
    let mut state = three_monitors();
    state.update_brightness("unknown", 120, true);
    assert_eq!(shown(&state), [100, 100, 100]);
    let expected: Vec<(String, i32)> = vec![("a".into(), 100), ("b".into(), 100), ("c".into(), 100)];
    assert_eq!(pending(&mut state), expected);
}

#[test]
fn a_single_change_reaches_one_monitor() {
    let mut state = three_monitors();
    state.update_brightness("b", -7, false);
    state.update_brightness("unknown", 50, false);
    assert_eq!(shown(&state), [10, 0, 30]);
    assert_eq!(pending(&mut state), [("b".to_string(), 0)]);
}

#[test]
fn a_later_change_takes_the_place_of_an_earlier_one() {
    let mut state = three_monitors();
    state.update_brightness("b", 50, false);
    state.update_brightness("a", 60, false);
    state.update_brightness("b", 70, false);
    assert_eq!(pending(&mut state), [("a".to_string(), 60), ("b".to_string(), 70)]);
    assert!(pending(&mut state).is_empty());
    assert_eq!(shown(&state), [60, 70, 30]);
}

#[test]
fn a_refresh_gives_up_what_waits() {
    let mut state = three_monitors();
    state.update_brightness("b", 50, false);
    state.discard_pending();
    assert!(pending(&mut state).is_empty());
    assert_eq!(shown(&state), [10, 50, 30]);
    state.update_brightness("b", 60, false);
    state.replace_snapshots(vec![snapshot("b", 20)]);
    assert!(pending(&mut state).is_empty());
    assert_eq!(shown(&state), [20]);
}

fn outcome(id: &str, requested: i32, effective: Option<i32>, error: Option<&str>) -> ApplyOutcome {
    ApplyOutcome {
        id: MonitorId::new(id),
        requested,
        effective,
        error: error.map(String::from),
    }
}

#[test]
fn success_changes_nothing_and_failures_are_told() {
    let mut state = three_monitors();
    let errors = state.reconcile_apply_report(ApplyReport {
        outcomes: vec![
            outcome("a", 10, Some(99), None),
            outcome("b", 25, Some(99), Some("other value shown")),
            outcome("c", 30, None, Some("unknown")),
            outcome("x", 30, Some(1), Some("no row")),
        ],
    });
    assert_eq!(shown(&state), [10, 20, 30]);
    assert_eq!(
        errors,
        [
            "failed to apply brightness for monitor b: other value shown",
            "failed to apply brightness for monitor c: unknown",
            "failed to apply brightness for monitor x: no row",
        ]
    );
}

#[test]
fn rows_agree_with_monitors_after_all_updates() {
    let monitors = || {
        ["a", "b", "c"]
            .map(|id| {
                WmiMonitor::new(MonitorId::new(id), id.to_uppercase(), 10, format!("path {id}"))
            })
            .into_iter()
            .collect::<Vec<_>>()
    };
    let mut controller = MonitorController::new();
    let refreshed = controller
        .refresh(
            Ok(Vec::new()),
            Ok(WmiDiscovery {
                monitors: monitors(),
                warnings: Vec::new(),
            }),
        )
        .unwrap();
    let mut state = MonitorState::new();
    state.replace_snapshots(refreshed.snapshots);
    state.update_brightness("", 80, true);
    let updates = state.take_pending();
    let replies = updates
        .iter()
        .map(|update| {
            if update.id.to_ui() == "b" {
                Err(MonitorError::Win32 {
                    context: "failed",
                    code: 1,
                })
            } else {
                Ok(())
            }
        })
        .collect();
    let report = controller.apply(updates, replies);
    let errors = state.reconcile_apply_report(report);
    assert_eq!(shown(&state), [80, 10, 80]);
    assert_eq!(
        errors,
        ["failed to apply brightness for monitor b: failed (win32 error 1)"]
    );
}

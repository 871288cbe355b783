use mmb::monitor_control::{MonitorId, MonitorSnapshot};
use mmb::monitor_hardware::windows::{ApplyOutcome, ApplyReport, RefreshResult};
use mmb::session::{ApplyAction, ApplyEvent, Queued, Session, Status, APPLY_DELAY_MS};
use slint::Model;

fn found(warnings: &[&str]) -> RefreshResult {
    RefreshResult {
        snapshots: vec![MonitorSnapshot {
            id: MonitorId::new("a"),
            name: "A".into(),
            brightness: 42,
        }],
        warnings: warnings.iter().map(|text| text.to_string()).collect(),
    }
}

fn with_monitor() -> Session {
    let mut session = Session::new();
    let request = session.request_refresh();
    session.handle_refresh_result(request, Ok(found(&[])));
    session
}

#[test]
fn requests_are_numbered_from_one() {
    let mut session = Session::new();
    assert_eq!(session.next_request_id(), 1);
    assert_eq!(session.next_request_id(), 2);
    assert_eq!(session.request_refresh(), 3);
}

#[test]
fn only_the_latest_refresh_is_shown() {
    let mut session = Session::new();
    let first = session.request_refresh();
    let second = session.request_refresh();
    assert!(session.handle_refresh_result(first, Ok(found(&[]))).is_none());
    assert!(!session.state().has_monitors());
    let notice = session.handle_refresh_result(second, Ok(found(&[]))).unwrap();
    assert_eq!(notice.status, Status::Clear);
    assert_eq!(notice.status.message(), "");
    assert!(session.state().has_monitors());
}

#[test]
fn warnings_and_errors_of_a_refresh_are_told() {
    let mut session = with_monitor();
    let request = session.request_refresh();
    let notice = session
        .handle_refresh_result(request, Ok(found(&["first", "second"])))
        .unwrap();
    assert_eq!(notice.status.message(), "Some monitors couldn't be refreshed.");
    assert_eq!(notice.log, ["first", "second"]);
    let request = session.request_refresh();
    let notice = session
        .handle_refresh_result(request, Err("broken".into()))
        .unwrap();
    assert_eq!(notice.status.message(), "Couldn't refresh monitors.");
    assert_eq!(notice.log, ["failed to refresh monitors: broken"]);
    assert_eq!(session.state().monitor_count(), 1);
}

#[test]
fn changes_wait_until_they_are_applied() {
    let mut session = with_monitor();
    assert!(session.request_apply().is_none());
    assert!(session.update_brightness("a", 60, false));
    let (request, updates) = session.request_apply().unwrap();
    assert_eq!(request, 2);
    assert_eq!(updates.len(), 1);
    assert_eq!((updates[0].id.to_ui(), updates[0].value), ("a", 60));
    assert!(session.request_apply().is_none());
}

#[test]
fn a_refresh_gives_up_the_changes_that_wait() {
    let mut session = with_monitor();
    session.update_brightness("a", 60, false);
    session.request_refresh();
    assert!(session.request_apply().is_none());
}

#[test]
fn a_scroll_starts_from_what_is_shown() {
    let mut session = with_monitor();
    assert!(session.can_scroll_brightness("a", 1));
    assert!(session.scroll_brightness("a", 1, false));
    assert_eq!(session.state().brightness_for_monitor("a"), Some(45));
    assert!(session.scroll_brightness("unknown", -1, true));
    assert_eq!(session.state().brightness_for_monitor("a"), Some(45));
    assert!(session.scroll_brightness("unknown", 1, true));
    assert_eq!(session.state().model().row_data(0).unwrap().brightness, 55);
    assert!(!Session::new().update_brightness("a", 1, true));
}

#[test]
fn the_worker_is_polled_while_requests_are_pending() {
    let mut session = Session::new();
    assert!(session.can_track());
    assert_eq!(session.refresh_queued(true), Queued::StartPolling);
    assert_eq!(session.apply_queued(true), Queued::Waiting);
    assert!(!session.finish_worker_request());
    assert!(session.finish_worker_request());
    assert!(session.finish_worker_request());
    assert_eq!(session.apply_queued(true), Queued::StartPolling);
    assert_eq!(session.refresh_queued(true), Queued::Waiting);
    assert_eq!(session.worker_disconnected().message(), "Monitor service stopped.");
    assert!(session.track_worker_request());
}

#[test]
fn a_request_that_the_worker_does_not_get_is_told() {
    let mut session = Session::new();
    assert_eq!(
        session.refresh_queued(false),
        Queued::Refused(Status::RefreshFailed)
    );
    assert_eq!(
        session.apply_queued(false),
        Queued::Refused(Status::ApplyFailed)
    );
    assert_eq!(Status::ApplyFailed.message(), "Couldn't change brightness.");
}

#[test]
fn failures_of_an_apply_are_told() {
    let mut session = with_monitor();
    session.update_brightness("a", 60, false);
    session.request_apply();
    let report = |error: Option<String>| ApplyReport {
        outcomes: vec![ApplyOutcome {
            id: MonitorId::new("a"),
            requested: 60,
            effective: Some(42),
            error,
        }],
    };
    let notice = session.handle_apply_report(report(None));
    assert_eq!(notice.status, Status::Clear);
    assert_eq!(session.state().brightness_for_monitor("a"), Some(60));
    let notice = session.handle_apply_report(report(Some("no".into())));
    assert_eq!(notice.status, Status::ApplyFailed);
    assert_eq!(notice.log, ["failed to apply brightness for monitor a: no"]);
    assert_eq!(session.state().brightness_for_monitor("a"), Some(42));
}

fn change(value: i32) -> ApplyEvent<'static> {
    ApplyEvent::Changed {
        monitor_id: "a",
        value,
        sync_all: false,
    }
}

#[test]
fn changes_restart_the_delay_and_are_applied_together() {
    let mut session = with_monitor();
    for value in [50, 60, 70] {
        assert!(matches!(
            session.apply_step(change(value)),
            ApplyAction::Restart {
                delay_ms: APPLY_DELAY_MS,
                has_monitors: true
            }
        ));
    }
    assert_eq!(APPLY_DELAY_MS, 1000);
    match session.apply_step(ApplyEvent::DelayEnded) {
        ApplyAction::Apply {
            request_id,
            updates,
        } => {
            assert_eq!(request_id, 2);
            assert_eq!(updates.len(), 1);
            assert_eq!((updates[0].id.to_ui(), updates[0].value), ("a", 70));
        }
        action => panic!("{action:?}"),
    }
    assert!(matches!(
        session.apply_step(ApplyEvent::DelayEnded),
        ApplyAction::Nothing
    ));
}

#[test]
fn a_scroll_restarts_the_delay_too() {
    let mut session = with_monitor();
    let scroll = ApplyEvent::Scrolled {
        monitor_id: "a",
        delta: -1,
        sync_all: false,
    };
    assert!(matches!(
        session.apply_step(scroll),
        ApplyAction::Restart { delay_ms: 1000, .. }
    ));
    assert_eq!(session.state().brightness_for_monitor("a"), Some(40));
}

#[test]
fn a_refresh_stops_the_delay() {
    let mut session = with_monitor();
    session.apply_step(change(50));
    assert!(matches!(
        session.apply_step(ApplyEvent::RefreshRequested),
        ApplyAction::StopAndRefresh { request_id: 2 }
    ));
    assert!(matches!(
        session.apply_step(ApplyEvent::DelayEnded),
        ApplyAction::Nothing
    ));
}

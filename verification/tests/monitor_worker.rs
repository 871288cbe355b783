use mmb::monitor_control::wmi::{WmiDiscovery, WmiMonitor};
use mmb::monitor_control::{BrightnessCommand, MonitorError, MonitorId};
use mmb::monitor_hardware::windows::BrightnessUpdate;
use mmb::monitor_worker::{Discovery, MonitorCommand, MonitorEvent, MonitorWorker};

fn updates() -> Vec<BrightnessUpdate> {
    vec![
        BrightnessUpdate {
            id: MonitorId::new("a"),
            value: 130,
        },
        BrightnessUpdate {
            id: MonitorId::new("x"),
            value: 5,
        },
    ]
}

fn discovery() -> Discovery {
    Discovery {
        ddc: Ok(Vec::new()),
        wmi: Ok(WmiDiscovery {
            monitors: vec![WmiMonitor::new(
                MonitorId::new("a"),
                "A".into(),
                40,
                "path".into(),
            )],
            warnings: vec!["warning".into()],
        }),
    }
}

fn failed() -> Discovery {
    Discovery {
        ddc: Err(MonitorError::Win32 {
            context: "EnumDisplayMonitors failed",
            code: 5,
        }),
        wmi: discovery().wmi,
    }
}

fn refreshed() -> MonitorWorker {
    let mut worker = MonitorWorker::new();
    worker.complete(
        MonitorCommand::Refresh { request_id: 1 },
        Vec::new(),
        Some(discovery()),
    );
    worker
}

#[test]
fn every_command_is_announced_and_answered_under_its_number() {
    let mut worker = MonitorWorker::new();
    let command = MonitorCommand::Refresh { request_id: 7 };
    assert!(command.needs_refresh());
    assert!(matches!(
        worker.begin(&command),
        MonitorEvent::Started { request_id: 7 }
    ));
    match worker.complete(command, Vec::new(), Some(discovery())) {
        MonitorEvent::Refreshed {
            request_id: 7,
            apply_report: None,
            result: Ok(result),
        } => {
            assert_eq!(result.snapshots.len(), 1);
            assert_eq!(result.snapshots[0].id.to_ui(), "a");
            assert_eq!(result.snapshots[0].name, "A");
            assert_eq!(result.snapshots[0].brightness, 40);
            assert_eq!(result.warnings, ["warning"]);
        }
        event => panic!("{event:?}"),
    }
}

#[test]
fn a_refresh_that_failed_keeps_the_monitors() {
    let mut worker = refreshed();
    match worker.complete(
        MonitorCommand::Refresh { request_id: 2 },
        Vec::new(),
        Some(failed()),
    ) {
        MonitorEvent::Refreshed {
            result: Err(message),
            ..
        } => assert_eq!(message, "EnumDisplayMonitors failed (win32 error 5)"),
        event => panic!("{event:?}"),
    }
    assert!(worker.request(&updates()[0]).is_some());
}

#[test]
fn updates_become_requests_and_outcomes() {
    let mut worker = refreshed();
    assert!(worker.can_apply(&updates()[0]));
    assert!(matches!(
        worker.request(&updates()[0]),
        Some(BrightnessCommand::Wmi { instance_path, brightness: 100 }) if instance_path == "path"
    ));
    assert!(worker.request(&updates()[1]).is_none());
    let command = MonitorCommand::Apply {
        request_id: 3,
        updates: updates(),
    };
    assert!(!command.needs_refresh());
    match worker.complete(command, vec![Ok(()), Ok(())], None) {
        MonitorEvent::Applied {
            request_id: 3,
            report,
        } => {
            assert_eq!(report.outcomes[0].requested, 100);
            assert_eq!(report.outcomes[0].effective, Some(100));
            assert_eq!(report.outcomes[0].error, None);
            assert_eq!(report.outcomes[1].effective, None);
            assert_eq!(
                report.outcomes[1].error.as_deref(),
                Some("unknown monitor id x")
            );
        }
        event => panic!("{event:?}"),
    }
}

#[test]
fn updates_are_applied_before_the_refresh() {
    let mut worker = refreshed();
    let command = MonitorCommand::ApplyThenRefresh {
        request_id: 4,
        updates: updates(),
    };
    match worker.complete(command, vec![Ok(()), Ok(())], Some(failed())) {
        MonitorEvent::Refreshed {
            request_id: 4,
            apply_report: Some(report),
            result: Err(_),
        } => assert_eq!(report.outcomes[0].effective, Some(100)),
        event => panic!("{event:?}"),
    }
}

#[test]
fn a_command_that_is_refused_gives_its_updates_back() {
    let command = MonitorCommand::Apply {
        request_id: 1,
        updates: updates(),
    };
    assert_eq!(command.request_id(), 1);
    let error = command.refused("sending on a closed channel".into());
    assert_eq!(error.message, "sending on a closed channel");
    assert_eq!(error.updates.len(), 2);
    assert_eq!(error.updates[1].id.to_ui(), "x");
    let command = MonitorCommand::Refresh { request_id: 1 };
    assert!(command.refused(String::new()).updates.is_empty());
}

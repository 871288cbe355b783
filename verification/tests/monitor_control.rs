use mmb::monitor_control::ddc::{
    self, classify_brightness_error, may_have_brightness, percent_fits, percent_to_raw,
    raw_to_percent, BrightnessErrorKind, DdcDiscovery, DisplayProbe, PhysicalListing,
    PhysicalProbe, RawBrightness,
};
use mmb::monitor_control::display_config::{
    active_display_paths, normalize_gdi_name, normalize_pnp_id, pnp_id_from_monitor_device_path,
    ActiveDisplayPaths, PathProbe, PathQuery, QueryStep,
};
use mmb::monitor_control::wmi::{self, WmiDiscovery, WmiMonitor, WmiReply};
use mmb::monitor_control::{
    BrightnessCommand, BrightnessUpdate, MonitorController, MonitorError, MonitorId, RefreshResult,
};
use mmb::monitor_control::display_config as paths;
use mmb::wide::wide_null;
use mmb::windows_integration::{mouse_hook, single_instance, theme};
use windows_sys::Win32::Devices::Display::MC_CAPS_BRIGHTNESS;
use windows_sys::Win32::Foundation::{
    ERROR_ALREADY_EXISTS, ERROR_FILE_NOT_FOUND, ERROR_GEN_FAILURE, ERROR_INSUFFICIENT_BUFFER,
    ERROR_INVALID_FUNCTION, ERROR_NOT_SUPPORTED, ERROR_SUCCESS,
};
use windows_sys::Win32::UI::WindowsAndMessaging as messages;

#[test]
fn brightness_conversion_respects_monitor_ranges() {
    assert_eq!(raw_to_percent(10, 10, 90), 0);
    assert_eq!(raw_to_percent(50, 10, 90), 50);
    assert_eq!(raw_to_percent(90, 10, 90), 100);
    assert_eq!(percent_to_raw(0, 10, 90), 10);
    assert_eq!(percent_to_raw(50, 10, 90), 50);
    assert_eq!(percent_to_raw(100, 10, 90), 90);
}

#[test]
fn only_explicit_unsupported_errors_hide_a_monitor() {
    assert_eq!(
        classify_brightness_error(ERROR_INVALID_FUNCTION),
        BrightnessErrorKind::Unsupported
    );
    assert_eq!(
        classify_brightness_error(ERROR_NOT_SUPPORTED),
        BrightnessErrorKind::Unsupported
    );
    assert_eq!(
        classify_brightness_error(ERROR_GEN_FAILURE),
        BrightnessErrorKind::Failed
    );
}

#[test]
fn monitor_device_paths_become_normalized_pnp_ids() {
    assert_eq!(
        pnp_id_from_monitor_device_path(r"\\?\DISPLAY#DEL40A9#5&12345&0&UID4352#{guid}").as_deref(),
        Some(r"DISPLAY\DEL40A9\5&12345&0&UID4352")
    );
    assert_eq!(
        normalize_pnp_id("display#abc/instance"),
        r"DISPLAY\ABC\INSTANCE"
    );
    assert_eq!(normalize_gdi_name(r"\\.\display1"), r"\\.\DISPLAY1");
}

#[test]
fn cloned_display_sources_keep_every_target() {
    let mut paths = ActiveDisplayPaths::default();
    paths.add_path(r"\\.\DISPLAY1", r"DISPLAY\B\2".into());
    paths.add_path(r"\\.\display1", r"DISPLAY\A\1".into());
    paths.add_path(r"\\.\DISPLAY1", r"DISPLAY\B\2".into());
    let targets = paths.pnp_ids_for_gdi_name(r"\\.\display1");

    assert_eq!(targets, [r"DISPLAY\A\1", r"DISPLAY\B\2"]);
}

#[test]
fn ddc_brightness_conversion_respects_monitor_ranges() {
    assert_eq!(raw_to_percent(10, 10, 90), 0);
    assert_eq!(raw_to_percent(50, 10, 90), 50);
    assert_eq!(raw_to_percent(90, 10, 90), 100);
    assert_eq!(percent_to_raw(0, 10, 90), 10);
    assert_eq!(percent_to_raw(50, 10, 90), 50);
    assert_eq!(percent_to_raw(100, 10, 90), 90);
}

fn rounded(value: u32, min: u32, max: u32) -> i32 {
    (((value.saturating_sub(min)) as f64 / (max - min) as f64) * 100.0)
        .round()
        .clamp(0.0, 100.0) as i32
}

#[test]
fn percentages_are_rounded_like_floating_point_numbers() {
    for range in 1..=400u32 {
        for offset in 0..=range + 3 {
            assert_eq!(
                raw_to_percent(7 + offset, 7, 7 + range),
                rounded(7 + offset, 7, 7 + range),
                "{offset} of {range}"
            );
        }
    }
    for (value, min, max) in [
        (0, 5, 10),
        (u32::MAX, 0, u32::MAX),
        (u32::MAX / 2, 0, u32::MAX),
        (u32::MAX, 0, 1),
        (29, 0, 200),
        (57, 0, 200),
        (113, 0, 200),
        (115, 0, 200),
        (1_000_000_000, 3, 4_000_000_000),
    ] {
        assert_eq!(raw_to_percent(value, min, max), rounded(value, min, max));
    }
}

#[test]
fn percentages_survive_ranges_of_a_hundred_and_more() {
    for range in [100, 101, 150, 255, 1000, 65535] {
        for percent in 0..=100 {
            let raw = percent_to_raw(percent, 3, 3 + range);
            assert_eq!(raw_to_percent(raw, 3, 3 + range), percent);
        }
    }
}

#[test]
fn raw_values_beyond_the_range_are_told_apart() {
    assert_eq!(percent_to_raw(-5, 10, 90), 10);
    assert_eq!(percent_to_raw(400, 10, 90), 90);
    assert!(percent_fits(100, 0, 42_949_672));
    assert!(!percent_fits(100, 0, 42_949_673));
    assert!(percent_fits(0, 0, u32::MAX));
}

#[test]
fn constants_are_those_of_the_system() {
    assert_eq!(ddc::MC_CAPS_BRIGHTNESS, MC_CAPS_BRIGHTNESS);
    assert_eq!(ddc::ERROR_INVALID_FUNCTION, ERROR_INVALID_FUNCTION);
    assert_eq!(ddc::ERROR_NOT_SUPPORTED, ERROR_NOT_SUPPORTED);
    assert_eq!(paths::ERROR_SUCCESS, ERROR_SUCCESS);
    assert_eq!(paths::ERROR_INSUFFICIENT_BUFFER, ERROR_INSUFFICIENT_BUFFER);
    assert_eq!(theme::ERROR_SUCCESS, ERROR_SUCCESS);
    assert_eq!(theme::ERROR_FILE_NOT_FOUND, ERROR_FILE_NOT_FOUND);
    assert_eq!(theme::WM_THEMECHANGED, messages::WM_THEMECHANGED);
    assert_eq!(theme::WM_SYSCOLORCHANGE, messages::WM_SYSCOLORCHANGE);
    assert_eq!(
        theme::WM_DWMCOLORIZATIONCOLORCHANGED,
        messages::WM_DWMCOLORIZATIONCOLORCHANGED
    );
    assert_eq!(mouse_hook::WM_LBUTTONDOWN, messages::WM_LBUTTONDOWN);
    assert_eq!(mouse_hook::WM_RBUTTONDOWN, messages::WM_RBUTTONDOWN);
    assert_eq!(mouse_hook::WM_MBUTTONDOWN, messages::WM_MBUTTONDOWN);
    assert_eq!(
        single_instance::ERROR_ALREADY_EXISTS,
        ERROR_ALREADY_EXISTS
    );
}

#[test]
fn device_paths_without_both_parts_have_no_id() {
    for path in [
        "",
        "DISPLAY#",
        r"\\?\DISPLAY#DEL40A9",
        r"\\?\DISPLAY# #5&1#{guid}",
        r"\\?\DISPLAY#DEL40A9# #{guid}",
        r"\\?\MONITOR#DEL40A9#5&1#{guid}",
    ] {
        assert_eq!(pnp_id_from_monitor_device_path(path), None, "{path}");
    }
    assert_eq!(
        pnp_id_from_monitor_device_path("display# a #b c ").as_deref(),
        Some(r"DISPLAY\A\B C")
    );
}

#[test]
fn the_display_configuration_is_asked_for_three_times() {
    let mut query = PathQuery::new();
    assert!(query.buffer_sizes(0).is_ok());
    assert_eq!(
        query.buffer_sizes(5).unwrap_err().to_string(),
        "GetDisplayConfigBufferSizes failed (win32 error 5)"
    );
    assert!(matches!(query.paths(122), QueryStep::Retry));
    assert!(matches!(query.paths(122), QueryStep::Retry));
    match query.paths(122) {
        QueryStep::Failed(error) => assert_eq!(
            error.to_string(),
            "QueryDisplayConfig remained unstable (win32 error 122)"
        ),
        _ => panic!(),
    }
    let mut query = PathQuery::new();
    match query.paths(31) {
        QueryStep::Failed(error) => {
            assert_eq!(error.to_string(), "QueryDisplayConfig failed (win32 error 31)")
        }
        _ => panic!(),
    }
    assert!(matches!(query.paths(0), QueryStep::Done));
}

fn path(source: &str, target: &str) -> PathProbe {
    PathProbe {
        source_id: 1,
        source_status: 0,
        source_name: wide_null(source),
        target_id: 2,
        target_status: 0,
        target_path: wide_null(target),
    }
}

#[test]
fn paths_that_cannot_be_inspected_are_told() {
    let paths = active_display_paths(Ok(vec![
        path(r"\\.\display1", r"\\?\DISPLAY#A#1#{g}"),
        PathProbe {
            source_status: -5,
            ..path("", "")
        },
        path("", ""),
        PathProbe {
            target_status: 31,
            ..path("x", "")
        },
        path("x", "nothing"),
    ]))
    .unwrap();
    assert!(!paths.is_complete());
    assert!(paths.contains_pnp_id(r"DISPLAY\A\1"));
    assert!(!paths.contains_pnp_id("x"));
    assert_eq!(paths.pnp_ids_for_gdi_name(r" \\.\Display1 "), [r"DISPLAY\A\1"]);
    assert!(paths.pnp_ids_for_gdi_name("x").is_empty());
    let head = "failed to inspect active display path: ";
    assert_eq!(
        paths.warnings()[..],
        [
            format!("{head}DisplayConfigGetDeviceInfo source query failed (win32 error 4294967291)"),
            format!("{head}invalid active display source name: source id 1"),
            format!("{head}DisplayConfigGetDeviceInfo target query failed (win32 error 31)"),
            format!("{head}invalid active monitor device path: target id 2"),
        ]
    );
    let complete = active_display_paths(Ok(Vec::new())).unwrap();
    assert!(complete.is_complete());
    assert!(MonitorController::active_filter(&complete).is_some());
    assert!(MonitorController::active_filter(&paths).is_none());
    assert!(active_display_paths(Err(MonitorError::wmi("a", "b".into()))).is_err());
}

fn physical(brightness: Result<(u32, u32, u32), u32>, description: &str) -> PhysicalProbe {
    PhysicalProbe {
        handle: 9,
        capabilities: Some(MC_CAPS_BRIGHTNESS),
        brightness: brightness.map(|(min, current, max)| RawBrightness { min, current, max }),
        description: wide_null(description),
    }
}

fn display(device: Option<&str>, probes: Vec<PhysicalProbe>) -> DisplayProbe {
    DisplayProbe {
        hmonitor: 0xabc,
        device: device.map(wide_null),
        physical: PhysicalListing::Listed(probes),
    }
}

fn ids(discovery: &DdcDiscovery) -> Vec<&str> {
    discovery.monitors.iter().map(|monitor| monitor.id().to_ui()).collect()
}

#[test]
fn the_id_of_a_monitor_tells_what_is_known_of_it() {
    let mut paths = ActiveDisplayPaths::default();
    paths.add_path("one", "PNP1".into());
    paths.add_path("two", "PNP3".into());
    paths.add_path("two", "PNP2".into());
    let probe = || vec![physical(Ok((0, 50, 100)), "Dell")];
    let discovery = ddc::discover(
        Ok(vec![
            display(Some("One"), probe()),
            display(Some("two"), probe()),
            display(Some("three"), probe()),
            display(None, probe()),
        ]),
        &paths,
    )
    .unwrap();
    assert_eq!(
        ids(&discovery),
        [
            "ddc:PNP1:0",
            "ddc-clone:PNP2|PNP3:0:DELL",
            "ddc-gdi:THREE:0:DELL",
            "ddc-hmonitor:ABC:0:DELL",
        ]
    );
    assert!(discovery.warnings.is_empty());
}

#[test]
fn monitors_that_cannot_be_inspected_are_told() {
    let paths = ActiveDisplayPaths::default();
    let hidden = PhysicalProbe {
        capabilities: Some(0),
        ..physical(Err(31), "")
    };
    let discovery = ddc::discover(
        Ok(vec![
            display(
                Some("D"),
                vec![
                    hidden,
                    physical(Err(ERROR_NOT_SUPPORTED), ""),
                    physical(Err(31), ""),
                    physical(Ok((5, 5, 4)), ""),
                    physical(Ok((0, 1, 100)), ""),
                ],
            ),
            DisplayProbe {
                physical: PhysicalListing::CountFailed(6),
                ..display(None, Vec::new())
            },
            DisplayProbe {
                physical: PhysicalListing::ListFailed(7),
                ..display(None, Vec::new())
            },
        ]),
        &paths,
    )
    .unwrap();
    assert_eq!(ids(&discovery), ["ddc-gdi:D:4:D"]);
    assert_eq!(discovery.monitors[0].name(), "D");
    assert_eq!(discovery.monitors[0].brightness(), 1);
    assert_eq!(
        discovery.warnings,
        [
            "failed to inspect D: GetMonitorBrightness failed (win32 error 31)",
            "failed to inspect D: invalid DDC brightness range: minimum 5, maximum 4",
            "failed to inspect UNKNOWN-DISPLAY: GetNumberOfPhysicalMonitorsFromHMONITOR failed \
             (win32 error 6)",
            "failed to inspect UNKNOWN-DISPLAY: GetPhysicalMonitorsFromHMONITOR failed \
             (win32 error 7)",
        ]
    );
    assert_eq!(
        ddc::discover(Err(8), &paths).unwrap_err().to_string(),
        "EnumDisplayMonitors failed (win32 error 8)"
    );
    assert!(may_have_brightness(None));
    assert!(!may_have_brightness(Some(4)));
}

fn wmi_found(ids: &[&str]) -> Result<WmiDiscovery, MonitorError> {
    Ok(WmiDiscovery {
        monitors: ids
            .iter()
            .map(|id| WmiMonitor::new(MonitorId::new(id), format!("Name {id}"), 30, format!("path {id}")))
            .collect(),
        warnings: vec!["wmi warning".into()],
    })
}

fn no_paths() -> Result<ActiveDisplayPaths, MonitorError> {
    Ok(ActiveDisplayPaths::default())
}

fn broken() -> MonitorError {
    MonitorError::Win32 {
        context: "broken",
        code: 1,
    }
}

fn refreshed(controller: &mut MonitorController, ids: &[&str]) -> RefreshResult {
    controller.refresh(no_paths(), Err(broken()), wmi_found(ids)).unwrap()
}

#[test]
fn a_refresh_leaves_out_ids_that_came_before() {
    let mut controller = MonitorController::new();
    let paths = ActiveDisplayPaths::default();
    let found = ddc::discover(
        Ok(vec![display(Some("D"), vec![physical(Ok((0, 1, 100)), "Dell")])]),
        &paths,
    );
    let result = controller
        .refresh(
            Err(broken()),
            found,
            wmi_found(&["a", "ddc-gdi:D:0:DELL", "a"]),
        )
        .unwrap();
    let shown: Vec<&str> = result.snapshots.iter().map(|shot| shot.id.to_ui()).collect();
    assert_eq!(shown, ["ddc-gdi:D:0:DELL", "a"]);
    assert_eq!(result.generation, 1);
    assert_eq!(
        result.warnings,
        [
            "failed to query active display paths: broken (win32 error 1)",
            "wmi warning",
            "ignored duplicate monitor id ddc-gdi:D:0:DELL (Name ddc-gdi:D:0:DELL)",
            "ignored duplicate monitor id a (Name a)",
        ]
    );
    assert_eq!(controller.snapshots().len(), 2);
}

#[test]
fn a_refresh_fails_where_both_kinds_of_monitors_do() {
    let mut controller = MonitorController::default();
    refreshed(&mut controller, &["a"]);
    let error = controller
        .refresh(no_paths(), Err(broken()), Err(MonitorError::wmi("WMI", "gone".into())))
        .unwrap_err();
    assert_eq!(
        error.to_string(),
        "monitor discovery failed: failed to refresh DDC monitors: broken (win32 error 1); \
         failed to refresh WMI monitors: WMI: gone"
    );
    assert_eq!(controller.snapshots().len(), 1);
}

fn update(generation: u64, id: &str, value: i32) -> BrightnessUpdate {
    BrightnessUpdate {
        generation,
        id: MonitorId::new(id),
        value,
    }
}

#[test]
fn stale_and_unknown_updates_are_refused() {
    let mut controller = MonitorController::new();
    refreshed(&mut controller, &["a"]);
    assert_eq!(refreshed(&mut controller, &["a"]).generation, 2);
    assert!(controller.command(&update(1, "a", 50)).is_none());
    assert!(controller.command(&update(2, "x", 50)).is_none());
    let report = controller.apply(
        vec![update(1, "a", 150), update(2, "x", 50), update(2, "a", 60)],
        vec![Ok(()), Ok(()), Ok(())],
    );
    assert_eq!(
        report.outcomes[0].error.as_deref(),
        Some("stale monitor generation 1; current generation is 2")
    );
    assert_eq!(report.outcomes[0].requested, 100);
    assert_eq!(report.outcomes[0].effective, None);
    assert_eq!(report.outcomes[1].error.as_deref(), Some("unknown monitor id x"));
    assert_eq!(report.outcomes[2].effective, Some(60));
    assert_eq!(report.outcomes[2].generation, 2);
    assert_eq!(controller.snapshots()[0].brightness, 60);
}

#[test]
fn an_update_that_fails_leaves_the_brightness() {
    let mut controller = MonitorController::new();
    refreshed(&mut controller, &["a", "b"]);
    let outcome = controller.apply_update(update(1, "b", 70), Err(broken()));
    assert_eq!(outcome.effective, Some(30));
    assert_eq!(outcome.error.as_deref(), Some("broken (win32 error 1)"));
    assert_eq!(controller.snapshots()[1].brightness, 30);
}

#[test]
fn commands_tell_how_a_monitor_is_set() {
    let mut controller = MonitorController::new();
    let paths = ActiveDisplayPaths::default();
    let found = ddc::discover(
        Ok(vec![display(Some("D"), vec![physical(Ok((10, 50, 90)), "Dell")])]),
        &paths,
    );
    controller.refresh(no_paths(), found, wmi_found(&["a"])).unwrap();
    let set = update(1, "ddc-gdi:D:0:DELL", 50);
    assert!(controller.can_apply(&set));
    assert!(matches!(
        controller.command(&set),
        Some(BrightnessCommand::Ddc { handle: 9, raw: 50 })
    ));
    assert!(matches!(
        controller.command(&update(1, "a", -3)),
        Some(BrightnessCommand::Wmi { instance_path, brightness: 0 }) if instance_path == "path a"
    ));
    assert!(ddc::set_brightness_reply(1, 5).is_ok());
    assert_eq!(
        ddc::set_brightness_reply(0, 5).unwrap_err().to_string(),
        "SetMonitorBrightness failed (win32 error 5)"
    );
    assert!(wmi::set_brightness_reply(WmiReply::Returned(0)).is_ok());
    let text = |reply| wmi::set_brightness_reply(reply).unwrap_err().to_string();
    assert_eq!(text(WmiReply::Returned(3)), "WmiSetBrightness failed (win32 error 3)");
    assert_eq!(text(WmiReply::CallFailed("x".into())), "WmiSetBrightness failed: x");
    assert_eq!(text(WmiReply::NotConnected("y".into())), "WMI connection failed: y");
}

#[test]
fn ids_are_compared_by_their_text() {
    let id = MonitorId::from_ui("wmi:test");
    assert!(id.same(&id.clone()));
    assert!(!id.same(&MonitorId::new("wmi:other")));
    assert_eq!(id.to_ui(), "wmi:test");
}

#[test]
fn raw_values_survive_ranges_of_a_hundred_and_less() {
    for range in 1..=100 {
        for raw in 3..=3 + range {
            let percent = raw_to_percent(raw, 3, 3 + range);
            assert_eq!(percent_to_raw(percent, 3, 3 + range), raw);
        }
    }
}

#[test]
fn the_order_of_adding_paths_does_not_matter() {
    let ids = ["C", "A", "B", "A"];
    let mut forwards = ActiveDisplayPaths::default();
    let mut backwards = ActiveDisplayPaths::default();
    for id in ids {
        forwards.add_path("D", id.into());
    }
    for id in ids.into_iter().rev() {
        backwards.add_path("d", id.into());
    }
    assert_eq!(forwards.pnp_ids_for_gdi_name("D"), ["A", "B", "C"]);
    assert_eq!(
        forwards.pnp_ids_for_gdi_name("D"),
        backwards.pnp_ids_for_gdi_name("D")
    );
}

use mmb::monitor_control::ddc::RawBrightness;
use mmb::monitor_control::display_config::{normalize_pnp_id, pnp_id_from_monitor_device_path};
use mmb::monitor_control::MonitorError as WindowsMonitorError;
use mmb::monitor_hardware::ddc::{build_monitor, discover, DisplayProbe, PhysicalProbe};
use mmb::monitor_hardware::display_config::{active_display_pnp_ids, TargetProbe};
use mmb::monitor_hardware::wmi::{
    friendly_name_from_wmi, pnp_monitor_names, wmi_instance_to_pnp_id, wmi_monitor_names,
    BrightnessInstance, MethodsInstance, NameInstance, PnpEntity, WmiFailure,
};
use mmb::monitor_hardware::{wmi, MonitorController, MonitorError, MonitorId};
use mmb::wide::wide_null;

#[test]
fn display_config_monitor_device_paths_become_normalized_pnp_ids() {
    assert_eq!(
        pnp_id_from_monitor_device_path(r"\\?\DISPLAY#DEL40A9#5&12345&0&UID4352#{guid}").as_deref(),
        Some(r"DISPLAY\DEL40A9\5&12345&0&UID4352")
    );
    assert_eq!(
        normalize_pnp_id("display#abc/instance"),
        r"DISPLAY\ABC\INSTANCE"
    );
}

#[test]
fn wmi_names_and_instance_ids_are_normalized() {
    assert_eq!(
        friendly_name_from_wmi(&Some(vec![68, 101, 108, 108, 0, 0])).as_deref(),
        Some("Dell")
    );
    assert_eq!(
        wmi_instance_to_pnp_id("DISPLAY\\BOE1234\\4&ABCD&0&UID265988_0").as_deref(),
        Some("DISPLAY\\BOE1234\\4&ABCD&0&UID265988")
    );
}

#[test]
fn names_without_text_are_none() {
    assert_eq!(friendly_name_from_wmi(&None), None);
    assert_eq!(friendly_name_from_wmi(&Some(vec![])), None);
    assert_eq!(friendly_name_from_wmi(&Some(vec![32, 9, 0, 65])), None);
    assert_eq!(
        friendly_name_from_wmi(&Some(vec![32, 65, 32, 66, 32])).as_deref(),
        Some("A B")
    );
}

#[test]
fn only_a_number_at_the_end_is_taken_from_an_instance_name() {
    assert_eq!(wmi_instance_to_pnp_id("a_b_12").as_deref(), Some("A_B"));
    assert_eq!(wmi_instance_to_pnp_id("a_1x").as_deref(), Some("A_1X"));
    assert_eq!(wmi_instance_to_pnp_id("a_").as_deref(), Some("A"));
    assert_eq!(wmi_instance_to_pnp_id("a12").as_deref(), Some("A12"));
    assert_eq!(wmi_instance_to_pnp_id("a/b#c_0").as_deref(), Some("A\\B\\C"));
    assert_eq!(wmi_instance_to_pnp_id("_0"), None);
    assert_eq!(wmi_instance_to_pnp_id(""), None);
}

fn instance(name: &str, active: bool, brightness: u8) -> BrightnessInstance {
    BrightnessInstance {
        instance_name: name.into(),
        active,
        current_brightness: brightness,
    }
}

fn method(name: &str, active: bool, path: &str) -> MethodsInstance {
    MethodsInstance {
        instance_name: name.into(),
        active,
        path: path.into(),
    }
}

fn targets(paths: &[&str]) -> Result<Vec<TargetProbe>, WindowsMonitorError> {
    Ok(paths
        .iter()
        .map(|path| TargetProbe {
            status: 0,
            path: wide_null(path),
        })
        .collect())
}

fn broken(context: &'static str) -> WindowsMonitorError {
    WindowsMonitorError::Win32 { context, code: 3 }
}

#[test]
fn wmi_monitors_are_those_that_are_active_and_can_be_set() {
    let active = active_display_pnp_ids(targets(&[r"\\?\display#A#1#{g}", r"\\?\DISPLAY#C#3#{g}"]));
    let names = wmi_monitor_names(Ok(vec![
        NameInstance {
            instance_name: r"DISPLAY\A\1_0".into(),
            active: true,
            user_friendly_name: Some(wide_null(" Panel ")),
        },
        NameInstance {
            instance_name: r"DISPLAY\C\3_0".into(),
            active: false,
            user_friendly_name: Some(wide_null("Not active")),
        },
    ]));
    let pnp_names = pnp_monitor_names(Ok(vec![
        PnpEntity {
            name: Some(" Device C ".into()),
            pnp_device_id: Some(r"display\c\3".into()),
        },
        PnpEntity {
            name: Some(" ".into()),
            pnp_device_id: Some(r"DISPLAY\C\3".into()),
        },
        PnpEntity {
            name: None,
            pnp_device_id: Some("x".into()),
        },
    ]));
    let discovery = wmi::discover(
        Ok(vec![
            instance(r"DISPLAY\A\1_0", true, 40),
            instance(r"DISPLAY\B\2_0", true, 50),
            instance(r"DISPLAY\C\3_0", true, 60),
            instance(r"DISPLAY\D\4_0", false, 70),
            instance(r"DISPLAY\E\5_0", true, 80),
            instance("_7", true, 200),
        ]),
        Ok(vec![
            method(r"DISPLAY\A\1_0", true, "old"),
            method(r"DISPLAY\A\1_0", true, "path a"),
            method(r"DISPLAY\B\2_0", true, "path b"),
            method(r"DISPLAY\C\3_0", true, "path c"),
            method(r"DISPLAY\D\4_0", true, "path d"),
            method(r"DISPLAY\E\5_0", false, "path e"),
            method("_7", true, "path 7"),
        ]),
        active,
        names,
        pnp_names,
    )
    .unwrap();
    let found: Vec<(&str, i32, &str)> = discovery
        .monitors
        .iter()
        .map(|monitor| (monitor.name(), monitor.brightness(), monitor.instance_path()))
        .collect();
    assert_eq!(
        found,
        [
            ("Panel", 40, "path a"),
            ("Device C", 60, "path c"),
            ("Integrated Monitor", 200, "path 7"),
        ]
    );
    assert!(discovery.warnings.is_empty());
}

#[test]
fn wmi_discovery_does_without_what_is_not_known() {
    let discovery = wmi::discover(
        Ok(vec![instance("A_0", true, 1)]),
        Ok(vec![method("A_0", true, "path")]),
        Err(broken("paths")),
        wmi_monitor_names(Err("names".into())),
        pnp_monitor_names(Err(WmiFailure::NotConnected("pnp".into()))),
    )
    .unwrap();
    assert_eq!(discovery.monitors[0].name(), "Integrated Monitor");
    assert_eq!(
        discovery.warnings,
        [
            "failed to query active display paths: paths (win32 error 3)",
            "failed to query WMI monitor names: WMI monitor name query failed: names",
            "failed to query PNP monitor names: WMI connection failed: pnp",
        ]
    );
}

#[test]
fn wmi_discovery_needs_the_brightness_and_its_methods() {
    let discover = |instances, methods| {
        wmi::discover(
            instances,
            methods,
            active_display_pnp_ids(targets(&[])),
            wmi_monitor_names(Ok(Vec::new())),
            pnp_monitor_names(Ok(Vec::new())),
        )
    };
    assert_eq!(
        discover(Err(WmiFailure::NotConnected("c".into())), Err("m".into()))
            .unwrap_err()
            .to_string(),
        "WMI connection failed: c"
    );
    assert_eq!(
        discover(Err(WmiFailure::QueryFailed("q".into())), Ok(Vec::new()))
            .unwrap_err()
            .to_string(),
        "WMI brightness query failed: q"
    );
    assert_eq!(
        discover(Ok(Vec::new()), Err("m".into())).unwrap_err().to_string(),
        "WMI brightness methods query failed: m"
    );
    assert!(discover(Ok(Vec::new()), Ok(Vec::new())).unwrap().monitors.is_empty());
    assert_eq!(
        pnp_monitor_names(Err(WmiFailure::QueryFailed("p".into())))
            .err()
            .unwrap()
            .to_string(),
        "PNP monitor name query failed: p"
    );
}

#[test]
fn a_wmi_monitor_remembers_what_it_was_set_to() {
    let mut monitor = wmi::discover(
        Ok(vec![instance("A_0", true, 1)]),
        Ok(vec![method("A_0", true, "path")]),
        active_display_pnp_ids(targets(&[])),
        wmi_monitor_names(Ok(Vec::new())),
        pnp_monitor_names(Ok(Vec::new())),
    )
    .unwrap()
    .monitors
    .remove(0);
    assert_eq!(monitor.set_brightness(130, Err("no")), Err("no"));
    assert_eq!(monitor.brightness(), 1);
    assert_eq!(monitor.set_brightness(130, Ok::<(), ()>(())), Ok(()));
    assert_eq!(monitor.brightness(), 100);
}

#[test]
fn targets_that_tell_nothing_are_left_out() {
    let ids = active_display_pnp_ids(Ok(vec![
        TargetProbe {
            status: 31,
            path: wide_null(r"\\?\DISPLAY#A#1#{g}"),
        },
        TargetProbe {
            status: 0,
            path: wide_null("nothing"),
        },
        TargetProbe {
            status: 0,
            path: wide_null(r"\\?\DISPLAY#B#2#{g}"),
        },
        TargetProbe {
            status: 0,
            path: wide_null(r"\\?\display#b#2#{h}"),
        },
    ]))
    .ok()
    .unwrap();
    assert!(ids.contains(r"DISPLAY\B\2"));
    assert_eq!(ids.len(), 1);
    let error = active_display_pnp_ids(Err(broken("GetDisplayConfigBufferSizes failed")));
    assert_eq!(
        error.err().unwrap().to_string(),
        "GetDisplayConfigBufferSizes failed (win32 error 3)"
    );
}

fn probe(handle: usize, raw: Option<(u32, u32, u32)>, description: &[u16]) -> PhysicalProbe {
    PhysicalProbe {
        handle,
        brightness: raw.map(|(min, current, max)| RawBrightness { min, current, max }),
        description: description.to_vec(),
    }
}

#[test]
fn ddc_monitors_are_those_with_a_brightness() {
    let monitors = discover(Ok(vec![
        DisplayProbe {
            device: Some(wide_null(r"\\.\DISPLAY1")),
            physical: Some(vec![
                probe(1, Some((10, 50, 90)), &wide_null("Dell")),
                probe(2, None, &wide_null("Mute")),
                probe(3, Some((5, 5, 5)), &wide_null("Flat")),
                probe(4, Some((0, 3, 100)), &[0]),
            ]),
        },
        DisplayProbe {
            device: None,
            physical: None,
        },
        DisplayProbe {
            device: None,
            physical: Some(vec![probe(5, Some((0, 200, 100)), &[])]),
        },
    ]))
    .ok()
    .unwrap();
    let found: Vec<(usize, &str, i32)> = monitors
        .iter()
        .map(|monitor| (monitor.handle(), monitor.name(), monitor.brightness()))
        .collect();
    assert_eq!(
        found,
        [(1, "Dell", 50), (4, r"\\.\DISPLAY1", 3), (5, "Monitor", 100)]
    );
    let error = discover(Err(8)).err().unwrap();
    assert_eq!(error.to_string(), "EnumDisplayMonitors failed (win32 error 8)");
}

#[test]
fn a_ddc_monitor_is_set_by_raw_values() {
    let mut monitor = build_monitor(&None, &probe(1, Some((10, 50, 90)), &[])).unwrap();
    assert!(monitor.can_set(50));
    assert_eq!(monitor.raw_brightness(50), 50);
    assert_eq!(monitor.raw_brightness(101), 90);
    assert_eq!(monitor.set_brightness(-4, Err(())), Err(()));
    assert_eq!(monitor.brightness(), 50);
    assert_eq!(monitor.set_brightness(-4, Ok::<(), ()>(())), Ok(()));
    assert_eq!(monitor.brightness(), 0);
}

#[test]
fn monitor_numbers_survive_the_user_interface() {
    let id = MonitorId::from_index(3);
    assert!(id.fits_ui());
    assert_eq!(id.to_ui(), 3);
    assert_eq!(MonitorId::from_ui(id.to_ui()), Some(id));
    assert_eq!(id.index(), 3);
    assert_eq!(id.to_string(), "3");
    assert_eq!(MonitorId::from_ui(-1), None);
    assert!(!MonitorId::from_index(1 << 31).fits_ui());
}

#[test]
fn without_a_platform_there_are_no_monitors() {
    let mut controller = MonitorController::new();
    assert_eq!(controller.refresh(), Ok(()));
    assert!(controller.snapshots().is_empty());
    assert_eq!(
        controller.set_brightness(MonitorId::from_index(0), 50),
        Err(MonitorError)
    );
    assert_eq!(
        MonitorError.to_string(),
        "monitor brightness is only supported on Windows"
    );
}

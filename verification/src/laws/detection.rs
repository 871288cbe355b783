//! Finding monitors: what a probe of a monitor or a WMI object becomes.
use vstd::prelude::*;

use crate::laws::brightness::{percentage_is_the_nearest, reads_as};
use crate::laws::spelling::{decimal_spellings_differ, decimal_spells_the_number};
use crate::monitor_control::ddc::{
    self, ddc_id, display_text, probe_result, probed_monitors, probed_warnings,
    DisplayProbe, PhysicalListing, PhysicalProbe,
};
use crate::monitor_control::display_config::ActiveDisplayPaths;
use crate::monitor_control::{DeviceModel, ErrorModel, MonitorModel};
use crate::monitor_hardware;
use crate::text::{decimal, joined, upper, upper_hex};
use crate::wide::terminated_text;

verus! {

/// A monitor that is found shows what its probe tells. It is reached by the probe's handle and has
/// the probe's range, which is not empty. Its brightness is the percentage of its raw value in that
/// range: zero at the lower end, a hundred at the upper one, and else the nearest. Its name is its
/// description, or that of its display where it has none.
pub proof fn found_monitor_shows_its_probe(
    hmonitor: usize,
    display: Seq<char>,
    pnp_ids: Seq<Seq<char>>,
    index: nat,
    probe: PhysicalProbe,
    monitor: MonitorModel,
)
    requires
        probe_result(hmonitor, display, pnp_ids, index, probe) == Ok::<
            Option<MonitorModel>,
            ErrorModel,
        >(Some(monitor)),
    ensures
        probe.brightness matches Ok(raw) && {
            &&& raw.min < raw.max
            &&& monitor.device == (DeviceModel::Ddc {
                handle: probe.handle,
                min: raw.min,
                max: raw.max,
            })
            &&& reads_as(
                raw.current as int,
                raw.min as int,
                raw.max as int,
                monitor.brightness as int,
            )
            &&& raw.current == raw.min ==> monitor.brightness == 0
            &&& raw.current == raw.max ==> monitor.brightness == 100
        },
        terminated_text(probe.description@) matches Some(text) ==> monitor.name == text,
        terminated_text(probe.description@) is None ==> monitor.name == display,
        monitor.id == ddc_id(display, pnp_ids, hmonitor as nat, index, monitor.name),
{
    let raw = probe.brightness->Ok_0;
    percentage_is_the_nearest(raw.current as int, raw.min as int, raw.max as int);
}

/// Of two monitors with the same range, the one with the higher raw value is shown no darker.
pub proof fn brighter_monitors_are_not_shown_darker(
    hmonitor: usize,
    display: Seq<char>,
    pnp_ids: Seq<Seq<char>>,
    index: nat,
    low: PhysicalProbe,
    high: PhysicalProbe,
    a: MonitorModel,
    b: MonitorModel,
)
    requires
        probe_result(hmonitor, display, pnp_ids, index, low) == Ok::<
            Option<MonitorModel>,
            ErrorModel,
        >(Some(a)),
        probe_result(hmonitor, display, pnp_ids, index, high) == Ok::<
            Option<MonitorModel>,
            ErrorModel,
        >(Some(b)),
        low.brightness->Ok_0.min == high.brightness->Ok_0.min,
        low.brightness->Ok_0.max == high.brightness->Ok_0.max,
        low.brightness->Ok_0.current <= high.brightness->Ok_0.current,
    ensures
        a.brightness <= b.brightness,
{
    let x = low.brightness->Ok_0;
    let y = high.brightness->Ok_0;
    percentage_is_the_nearest(x.current as int, x.min as int, x.max as int);
    percentage_is_the_nearest(y.current as int, y.min as int, y.max as int);
    ddc::percent_value_monotone(x.current as int, y.current as int, x.min as int, x.max as int);
}

/// What becomes of a probe. A monitor whose flags deny it a brightness, or that says it knows or
/// supports no such thing, is passed over; any other failure is an error with the code; so is a
/// range that is empty; and every other probe gives a monitor.
pub proof fn every_probe_is_judged(
    hmonitor: usize,
    display: Seq<char>,
    pnp_ids: Seq<Seq<char>>,
    index: nat,
    probe: PhysicalProbe,
)
    ensures
        ({
            let result = probe_result(hmonitor, display, pnp_ids, index, probe);
            let denied = probe.capabilities matches Some(flags) && flags & 2 == 0;
            &&& denied ==> result == Ok::<Option<MonitorModel>, ErrorModel>(None)
            &&& !denied ==> match probe.brightness {
                Ok(raw) => if raw.min < raw.max {
                    result matches Ok(Some(_))
                } else {
                    result == Err::<Option<MonitorModel>, ErrorModel>(
                        ErrorModel::InvalidData {
                            context: "invalid DDC brightness range"@,
                            details: "minimum "@ + decimal(raw.min as nat) + ", maximum "@
                                + decimal(raw.max as nat),
                        },
                    )
                },
                Err(code) => if code == 1 || code == 50 {
                    result == Ok::<Option<MonitorModel>, ErrorModel>(None)
                } else {
                    result == Err::<Option<MonitorModel>, ErrorModel>(
                        ErrorModel::Win32 { context: "GetMonitorBrightness failed"@, code },
                    )
                },
            }
        }),
{
}

/// The id of a monitor. With one plug-and-play id it depends on that and on the place among the
/// monitors of the display alone, so that it stays the same when handles and names change.
pub proof fn id_of_a_monitor(
    display: Seq<char>,
    pnp_ids: Seq<Seq<char>>,
    hmonitor: nat,
    index: nat,
    name: Seq<char>,
)
    ensures
        pnp_ids.len() == 1 ==> ddc_id(display, pnp_ids, hmonitor, index, name) == "ddc:"@
            + pnp_ids[0] + ":"@ + decimal(index),
        pnp_ids.len() > 1 ==> ddc_id(display, pnp_ids, hmonitor, index, name) == "ddc-clone:"@
            + joined(pnp_ids, "|"@) + ":"@ + decimal(index) + ":"@ + upper(name),
        pnp_ids.len() == 0 && display != "UNKNOWN-DISPLAY"@ ==> ddc_id(
            display,
            pnp_ids,
            hmonitor,
            index,
            name,
        ) == "ddc-gdi:"@ + upper(display) + ":"@ + decimal(index) + ":"@ + upper(name),
        pnp_ids.len() == 0 && display == "UNKNOWN-DISPLAY"@ ==> ddc_id(
            display,
            pnp_ids,
            hmonitor,
            index,
            name,
        ) == "ddc-hmonitor:"@ + upper_hex(hmonitor) + ":"@ + decimal(index) + ":"@ + upper(name),
{
}

/// Two spellings of different numbers behind the same beginning, each at the end of a text or
/// before a colon, make different texts.
proof fn lemma_numbered_texts_differ(
    head: Seq<char>,
    m: nat,
    n: nat,
    a: Seq<char>,
    b: Seq<char>,
)
    requires
        m != n,
        a.len() > 0 ==> a[0] == ':',
        b.len() > 0 ==> b[0] == ':',
        a.len() > 0 <==> b.len() > 0,
    ensures
        head + decimal(m) + a != head + decimal(n) + b,
{
    let x = head + decimal(m) + a;
    let y = head + decimal(n) + b;
    let p = decimal(m);
    let q = decimal(n);
    decimal_spells_the_number(m);
    decimal_spells_the_number(n);
    decimal_spellings_differ(m, n);
    if x == y {
        let at = head.len() as int;
        if p.len() < q.len() {
            assert(x[at + p.len()] == y[at + p.len()]);
            assert(y[at + p.len()] == q[p.len() as int]);
            if a.len() > 0 {
                assert(x[at + p.len()] == a[0]);
            }
        } else if q.len() < p.len() {
            assert(x[at + q.len()] == y[at + q.len()]);
            assert(x[at + q.len()] == p[q.len() as int]);
            if b.len() > 0 {
                assert(y[at + q.len()] == b[0]);
            }
        } else {
            assert forall|k: int| 0 <= k < p.len() implies p[k] == q[k] by {
                assert(x[at + k] == p[k] && y[at + k] == q[k]);
            }
            assert(p =~= q);
        }
    }
}

/// The monitors of one display have different ids, whatever they are called.
pub proof fn monitors_of_a_display_have_different_ids(
    display: Seq<char>,
    pnp_ids: Seq<Seq<char>>,
    hmonitor: nat,
    i: nat,
    j: nat,
    a: Seq<char>,
    b: Seq<char>,
)
    requires
        i != j,
    ensures
        ddc_id(display, pnp_ids, hmonitor, i, a) != ddc_id(display, pnp_ids, hmonitor, j, b),
{
    reveal_strlit(":");
    let x = ":"@ + upper(a);
    let y = ":"@ + upper(b);
    if pnp_ids.len() == 1 {
        let head = "ddc:"@ + pnp_ids[0] + ":"@;
        lemma_numbered_texts_differ(head, i, j, seq![], seq![]);
        assert(head + decimal(i) + Seq::<char>::empty() =~= head + decimal(i));
        assert(head + decimal(j) + Seq::<char>::empty() =~= head + decimal(j));
    } else {
        let head = if pnp_ids.len() > 1 {
            "ddc-clone:"@ + joined(pnp_ids, "|"@) + ":"@
        } else if display != "UNKNOWN-DISPLAY"@ {
            "ddc-gdi:"@ + upper(display) + ":"@
        } else {
            "ddc-hmonitor:"@ + upper_hex(hmonitor) + ":"@
        };
        lemma_numbered_texts_differ(head, i, j, x, y);
        assert(head + decimal(i) + x =~= head + decimal(i) + ":"@ + upper(a));
        assert(head + decimal(j) + y =~= head + decimal(j) + ":"@ + upper(b));
    }
}

/// The probes of a display are taken one by one: each gives a monitor, in its order, or a warning
/// that names the display, or neither where it is passed over.
pub proof fn probes_of_a_display_are_taken_in_order(
    hmonitor: usize,
    display: Seq<char>,
    pnp_ids: Seq<Seq<char>>,
    probes: Seq<PhysicalProbe>,
    probe: PhysicalProbe,
)
    ensures
        probed_monitors(hmonitor, display, pnp_ids, seq![]) == Seq::<MonitorModel>::empty(),
        probed_warnings(hmonitor, display, pnp_ids, seq![]) == Seq::<Seq<char>>::empty(),
        ({
            let monitors = probed_monitors(hmonitor, display, pnp_ids, probes);
            let warnings = probed_warnings(hmonitor, display, pnp_ids, probes);
            let more_monitors = probed_monitors(hmonitor, display, pnp_ids, probes.push(probe));
            let more_warnings = probed_warnings(hmonitor, display, pnp_ids, probes.push(probe));
            match probe_result(hmonitor, display, pnp_ids, probes.len(), probe) {
                Ok(Some(monitor)) => more_monitors == monitors.push(monitor) && more_warnings
                    == warnings,
                Ok(None) => more_monitors == monitors && more_warnings == warnings,
                Err(error) => more_monitors == monitors && more_warnings == warnings.push(
                    "failed to inspect "@ + display + ": "@ + error.text(),
                ),
            }
        }),
{
    assert(probes.push(probe).drop_last() =~= probes);
}

/// What a display gives. Its monitors are told apart by the targets that the active paths have for
/// it; one whose monitors cannot be counted or listed gives one warning instead.
pub proof fn monitors_of_a_display(probe: DisplayProbe, paths: ActiveDisplayPaths)
    ensures
        ddc::device_name(probe.device) matches Some(name) ==> display_text(probe) == name,
        ddc::device_name(probe.device) is None ==> display_text(probe) == "UNKNOWN-DISPLAY"@,
        probe.device matches Some(units) ==> ddc::device_name(probe.device) == terminated_text(
            units@,
        ),
        probe.device is None ==> ddc::device_name(probe.device) is None,
        ({
            let name = display_text(probe);
            let head = "failed to inspect "@ + name + ": "@;
            match probe.physical {
                PhysicalListing::Listed(probes) => {
                    &&& ddc::display_monitors(probe, paths) == probed_monitors(
                        probe.hmonitor,
                        name,
                        paths.targets(name),
                        probes@,
                    )
                    &&& ddc::display_warnings(probe, paths) == probed_warnings(
                        probe.hmonitor,
                        name,
                        paths.targets(name),
                        probes@,
                    )
                },
                PhysicalListing::CountFailed(code) => {
                    &&& ddc::display_monitors(probe, paths) == Seq::<MonitorModel>::empty()
                    &&& ddc::display_warnings(probe, paths) == seq![
                        head + ("GetNumberOfPhysicalMonitorsFromHMONITOR failed"@
                            + " (win32 error "@ + decimal(code as nat) + ")"@),
                    ]
                },
                PhysicalListing::ListFailed(code) => {
                    &&& ddc::display_monitors(probe, paths) == Seq::<MonitorModel>::empty()
                    &&& ddc::display_warnings(probe, paths) == seq![
                        head + ("GetPhysicalMonitorsFromHMONITOR failed"@ + " (win32 error "@
                            + decimal(code as nat) + ")"@),
                    ]
                },
            }
        }),
{
}

/// The displays are taken one by one, in their order.
pub proof fn displays_are_taken_in_order(
    displays: Seq<DisplayProbe>,
    display: DisplayProbe,
    paths: ActiveDisplayPaths,
)
    ensures
        ddc::all_monitors(seq![], paths) == Seq::<MonitorModel>::empty(),
        ddc::all_warnings(seq![], paths) == Seq::<Seq<char>>::empty(),
        ddc::all_monitors(displays.push(display), paths) == ddc::all_monitors(displays, paths)
            + ddc::display_monitors(display, paths),
        ddc::all_warnings(displays.push(display), paths) == ddc::all_warnings(displays, paths)
            + ddc::display_warnings(display, paths),
{
    assert(displays.push(display).drop_last() =~= displays);
}

/// Without ids too, a monitor that is found shows what its probe tells, and a probe gives one
/// exactly where it tells a brightness in a range that is not empty.
pub proof fn plain_monitor_shows_its_probe(
    device: Option<Vec<u16>>,
    probe: monitor_hardware::ddc::PhysicalProbe,
)
    ensures
        ({
            let found = monitor_hardware::ddc::probed_monitor(device, probe);
            &&& found is Some <==> (probe.brightness matches Some(raw) && raw.min < raw.max)
            &&& found matches Some(monitor) ==> {
                let raw = probe.brightness->Some_0;
                &&& monitor.handle == probe.handle
                &&& monitor.min == raw.min
                &&& monitor.max == raw.max
                &&& reads_as(
                    raw.current as int,
                    raw.min as int,
                    raw.max as int,
                    monitor.brightness as int,
                )
                &&& terminated_text(probe.description@) matches Some(text) ==> monitor.name == text
                &&& terminated_text(probe.description@) is None ==> monitor.name == (
                if device is Some && terminated_text(device->Some_0@) is Some {
                    terminated_text(device->Some_0@)->Some_0
                } else {
                    "Monitor"@
                })
            }
        }),
{
    match probe.brightness {
        Some(raw) => {
            if raw.min < raw.max {
                percentage_is_the_nearest(raw.current as int, raw.min as int, raw.max as int);
            }
        },
        None => {},
    }
}

/// Without ids too, probes and displays are taken one by one, in their order.
pub proof fn plain_probes_are_taken_in_order(
    device: Option<Vec<u16>>,
    probes: Seq<monitor_hardware::ddc::PhysicalProbe>,
    probe: monitor_hardware::ddc::PhysicalProbe,
    displays: Seq<monitor_hardware::ddc::DisplayProbe>,
    display: monitor_hardware::ddc::DisplayProbe,
)
    ensures
        monitor_hardware::ddc::probed_monitors(device, seq![]).len() == 0,
        monitor_hardware::ddc::probed_monitors(device, probes.push(probe)) == match (
            monitor_hardware::ddc::probed_monitor(device, probe)
        ) {
            Some(monitor) => monitor_hardware::ddc::probed_monitors(device, probes).push(monitor),
            None => monitor_hardware::ddc::probed_monitors(device, probes),
        },
        display.physical matches Some(list) ==> monitor_hardware::ddc::display_monitors(display)
            == monitor_hardware::ddc::probed_monitors(display.device, list@),
        display.physical is None ==> monitor_hardware::ddc::display_monitors(display).len() == 0,
        monitor_hardware::ddc::all_monitors(seq![]).len() == 0,
        monitor_hardware::ddc::all_monitors(displays.push(display))
            == monitor_hardware::ddc::all_monitors(displays)
            + monitor_hardware::ddc::display_monitors(display),
{
    assert(probes.push(probe).drop_last() =~= probes);
    assert(displays.push(display).drop_last() =~= displays);
}

} // verus!

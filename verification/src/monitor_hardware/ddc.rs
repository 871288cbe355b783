//! Monitors that speak DDC/CI, known by their place in the list alone.
use vstd::prelude::*;

use crate::monitor_control::ddc::{
    device_name, display_name, percent_fits, percent_to_raw, percent_value, raw_fits,
    raw_to_percent, raw_value, RawBrightness,
};
use crate::monitor_control::{
    clamp_percent, percent_of, win32_status, ErrorModel, MonitorError,
};
use crate::wide::{terminated_text, wide_to_string};

verus! {

/// A monitor that speaks DDC/CI.
#[derive(Debug)]
pub struct DdcMonitor {
    name: String,
    brightness: i32,
    handle: usize,
    min: u32,
    max: u32,
}

/// What is known of a monitor.
pub struct DdcModel {
    pub name: Seq<char>,
    pub brightness: i32,
    pub handle: usize,
    pub min: u32,
    pub max: u32,
}

impl View for DdcMonitor {
    type V = DdcModel;

    closed spec fn view(&self) -> DdcModel {
        DdcModel {
            name: self.name@,
            brightness: self.brightness,
            handle: self.handle,
            min: self.min,
            max: self.max,
        }
    }
}

impl DdcMonitor {
    /// The range is not empty and the brightness is a percentage.
    pub open spec fn wf(self) -> bool {
        self@.min < self@.max && 0 <= self@.brightness <= 100
    }

    /// The name of the monitor.
    pub fn name(&self) -> (r: &str)
        ensures
            r@ == self@.name,
    {
        self.name.as_str()
    }

    /// The brightness of the monitor.
    pub fn brightness(&self) -> (r: i32)
        ensures
            r == self@.brightness,
    {
        self.brightness
    }

    /// The handle by which the monitor is reached.
    pub fn handle(&self) -> (r: usize)
        ensures
            r == self@.handle,
    {
        self.handle
    }

    /// Whether the raw value of a percentage can be computed.
    pub fn can_set(&self, percent: i32) -> (r: bool)
        requires
            self.wf(),
        ensures
            r == raw_fits(percent as int, self@.min as int, self@.max as int),
    {
        percent_fits(percent, self.min, self.max)
    }

    /// The raw value that sets the brightness to a percentage.
    pub fn raw_brightness(&self, percent: i32) -> (r: u32)
        requires
            self.wf(),
            raw_fits(percent as int, self@.min as int, self@.max as int),
        ensures
            r == raw_value(percent as int, self@.min as int, self@.max as int),
            self@.min <= r <= self@.max,
    {
        percent_to_raw(percent, self.min, self.max)
    }

    /// Takes note of the answer to a request to set the brightness.
    pub fn set_brightness<E>(&mut self, percent: i32, reply: Result<(), E>) -> (r: Result<(), E>)
        requires
            old(self).wf(),
        ensures
            final(self).wf(),
            r == reply,
            final(self)@ == match reply {
                Ok(()) => DdcModel {
                    brightness: clamp_percent(percent as int) as i32,
                    ..old(self)@
                },
                Err(_) => old(self)@,
            },
    {
        if reply.is_ok() {
            self.brightness = percent_of(percent);
        }
        reply
    }
}

/// What a physical monitor says of itself.
pub struct PhysicalProbe {
    /// The handle by which the monitor is reached.
    pub handle: usize,
    /// The brightness, where the monitor could be asked for it.
    pub brightness: Option<RawBrightness>,
    /// The description, zero-terminated.
    pub description: Vec<u16>,
}

/// What the system says about a display.
pub struct DisplayProbe {
    /// The display's device name, zero-terminated, where the system gave it out.
    pub device: Option<Vec<u16>>,
    /// The monitors that show the display, where they could be counted and listed.
    pub physical: Option<Vec<PhysicalProbe>>,
}

/// The name of a monitor: its description, or else the name of its display.
pub open spec fn monitor_name(device: Option<Vec<u16>>, description: Seq<u16>) -> Seq<char> {
    match terminated_text(description) {
        Some(text) => text,
        None => match device_name(device) {
            Some(name) => name,
            None => "Monitor"@,
        },
    }
}

/// The monitor that a probe describes: none where it tells no brightness that makes sense.
pub open spec fn probed_monitor(device: Option<Vec<u16>>, probe: PhysicalProbe) -> Option<
    DdcModel,
> {
    match probe.brightness {
        Some(raw) => if raw.max <= raw.min {
            None
        } else {
            Some(
                DdcModel {
                    name: monitor_name(device, probe.description@),
                    brightness: percent_value(
                        raw.current as int,
                        raw.min as int,
                        raw.max as int,
                    ) as i32,
                    handle: probe.handle,
                    min: raw.min,
                    max: raw.max,
                },
            )
        },
        None => None,
    }
}

/// The monitor that a probe describes.
pub fn build_monitor(device: &Option<Vec<u16>>, probe: &PhysicalProbe) -> (r: Option<DdcMonitor>)
    ensures
        match r {
            Some(monitor) => monitor.wf() && probed_monitor(*device, *probe) == Some(monitor@),
            None => probed_monitor(*device, *probe) is None,
        },
{
    let raw = match probe.brightness {
        Some(raw) => raw,
        None => {
            return None;
        },
    };
    if raw.max <= raw.min {
        return None;
    }
    let name = match wide_to_string(&probe.description) {
        Some(text) => text,
        None => match display_name(device) {
            Some(text) => text,
            None => "Monitor".to_owned(),
        },
    };
    Some(
        DdcMonitor {
            name,
            brightness: raw_to_percent(raw.current, raw.min, raw.max),
            handle: probe.handle,
            min: raw.min,
            max: raw.max,
        },
    )
}

/// What the monitors of a list are.
pub open spec fn models(monitors: Seq<DdcMonitor>) -> Seq<DdcModel> {
    Seq::new(monitors.len(), |i: int| monitors[i]@)
}

/// The monitors among the first probes of a display.
pub open spec fn probed_monitors(device: Option<Vec<u16>>, probes: Seq<PhysicalProbe>) -> Seq<
    DdcModel,
>
    decreases probes.len(),
{
    if probes.len() == 0 {
        seq![]
    } else {
        let earlier = probed_monitors(device, probes.drop_last());
        match probed_monitor(device, probes.last()) {
            Some(monitor) => earlier.push(monitor),
            None => earlier,
        }
    }
}

/// The monitors of a display.
pub open spec fn display_monitors(probe: DisplayProbe) -> Seq<DdcModel> {
    match probe.physical {
        Some(probes) => probed_monitors(probe.device, probes@),
        None => seq![],
    }
}

/// The monitors of a display.
pub fn discover_physical_monitors(probe: &DisplayProbe) -> (r: Vec<DdcMonitor>)
    ensures
        models(r@) == display_monitors(*probe),
        forall|i: int| 0 <= i < r@.len() ==> (#[trigger] r@[i]).wf(),
{
    let mut monitors: Vec<DdcMonitor> = Vec::new();
    match &probe.physical {
        Some(probes) => {
            let mut i: usize = 0;
            while i < probes.len()
                invariant
                    i <= probes@.len(),
                    models(monitors@) == probed_monitors(probe.device, probes@.take(i as int)),
                    forall|k: int| 0 <= k < monitors@.len() ==> (#[trigger] monitors@[k]).wf(),
                decreases probes@.len() - i,
            {
                let ghost earlier = models(monitors@);
                assert(probes@.take(i + 1).drop_last() == probes@.take(i as int));
                match build_monitor(&probe.device, &probes[i]) {
                    Some(monitor) => {
                        assert(models(monitors@.push(monitor)) =~= earlier.push(monitor@));
                        monitors.push(monitor);
                    },
                    None => {},
                }
                i += 1;
            }
            assert(probes@.take(i as int) == probes@);
        },
        None => {},
    }
    assert(models(monitors@) =~= display_monitors(*probe));
    monitors
}

/// The monitors of all displays, one display after the other.
pub open spec fn all_monitors(displays: Seq<DisplayProbe>) -> Seq<DdcModel>
    decreases displays.len(),
{
    if displays.len() == 0 {
        seq![]
    } else {
        all_monitors(displays.drop_last()) + display_monitors(displays.last())
    }
}

/// The monitors of all displays, or the error where the displays could not be enumerated.
pub fn discover(displays: Result<Vec<DisplayProbe>, u32>) -> (r: Result<
    Vec<DdcMonitor>,
    MonitorError,
>)
    ensures
        match (displays, r) {
            (Ok(probes), Ok(monitors)) => {
                &&& models(monitors@) == all_monitors(probes@)
                &&& forall|i: int| 0 <= i < monitors@.len() ==> (#[trigger] monitors@[i]).wf()
            },
            (Err(code), Err(error)) => error@ == (ErrorModel::Win32 {
                context: "EnumDisplayMonitors failed"@,
                code,
            }),
            _ => false,
        },
{
    let probes = match displays {
        Ok(probes) => probes,
        Err(code) => {
            return Err(win32_status("EnumDisplayMonitors failed", code));
        },
    };
    let mut monitors: Vec<DdcMonitor> = Vec::new();
    let mut i: usize = 0;
    assert(models(monitors@) =~= seq![]);
    while i < probes.len()
        invariant
            i <= probes@.len(),
            models(monitors@) == all_monitors(probes@.take(i as int)),
            forall|k: int| 0 <= k < monitors@.len() ==> (#[trigger] monitors@[k]).wf(),
        decreases probes@.len() - i,
    {
        assert(probes@.take(i + 1).drop_last() == probes@.take(i as int));
        let mut found = discover_physical_monitors(&probes[i]);
        assert(models(monitors@ + found@) =~= models(monitors@) + models(found@));
        monitors.append(&mut found);
        i += 1;
    }
    assert(probes@.take(i as int) == probes@);
    Ok(monitors)
}

} // verus!

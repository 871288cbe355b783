//! Monitors that speak DDC/CI.
use vstd::prelude::*;

use crate::monitor_control::display_config::ActiveDisplayPaths;
use crate::monitor_control::{
    clamp_percent, percent_of, win32_status, DeviceModel, ErrorModel, MonitorError, MonitorId,
    MonitorModel,
};
use crate::text::{
    concat, concat3, decimal, decimal_string, join, joined, to_upper, upper, upper_hex,
    upper_hex_string, views,
};
use crate::wide::{terminated_text, wide_to_string};

verus! {

/// The halves at which the double-precision value of `100 * (2k + 1) / 200` falls short of
/// `k + 1/2`, so that it rounds down to `k`.
pub open spec fn half_rounds_down(k: int) -> bool {
    k == 14 || k == 28 || k == 56 || k == 57
}

/// The percentage that a raw value stands for in the range from `min` to `max`: the nearest
/// integer to `100 * (value - min) / (max - min)`, computed in double precision. A half rounds
/// up unless its double-precision value falls short of it.
pub open spec fn percent_value(value: int, min: int, max: int) -> int {
    let offset = if value > min { value - min } else { 0 };
    let range = max - min;
    if range == 0 {
        if offset == 0 { 0 } else { 100 }
    } else {
        let whole = (100 * offset) / range;
        let doubled = 2 * ((100 * offset) % range);
        let nearest = if doubled > range || (doubled == range && !half_rounds_down(whole)) {
            whole + 1
        } else {
            whole
        };
        if nearest > 100 { 100 } else { nearest }
    }
}

/// The raw value of a percentage in the range from `min` to `max`, halves rounded up.
pub open spec fn raw_value(percent: int, min: int, max: int) -> int {
    min + (clamp_percent(percent) * (max - min) + 50) / 100
}

/// Whether the raw value of a percentage can be computed in 32 bits.
pub open spec fn raw_fits(percent: int, min: int, max: int) -> bool {
    clamp_percent(percent) * (max - min) + 50 <= u32::MAX
}

/// The percentage that a raw value stands for.
pub fn raw_to_percent(value: u32, min: u32, max: u32) -> (r: i32)
    requires
        min <= max,
    ensures
        r == percent_value(value as int, min as int, max as int),
        0 <= r <= 100,
{
    let offset: u64 = if value > min { (value - min) as u64 } else { 0 };
    let range: u64 = (max - min) as u64;
    if range == 0 {
        return if offset == 0 { 0 } else { 100 };
    }
    let whole: u64 = (100 * offset) / range;
    let doubled: u64 = 2 * ((100 * offset) % range);
    if whole >= 100 {
        return 100;
    }
    let falls_short: bool = whole == 14 || whole == 28 || whole == 56 || whole == 57;
    if doubled > range || (doubled == range && !falls_short) {
        (whole + 1) as i32
    } else {
        whole as i32
    }
}

/// Whether the raw value of a percentage can be computed in 32 bits.
pub fn percent_fits(percent: i32, min: u32, max: u32) -> (r: bool)
    requires
        min <= max,
    ensures
        r == raw_fits(percent as int, min as int, max as int),
{
    let percent: u64 = percent_of(percent) as u64;
    let range: u64 = (max - min) as u64;
    assert(percent * range <= 100 * 0xffff_ffff) by (nonlinear_arith)
        requires
            percent <= 100,
            range <= 0xffff_ffff,
    ;
    percent * range + 50 <= u32::MAX as u64
}

/// The raw value of a percentage.
pub fn percent_to_raw(percent: i32, min: u32, max: u32) -> (r: u32)
    requires
        min <= max,
        raw_fits(percent as int, min as int, max as int),
    ensures
        r == raw_value(percent as int, min as int, max as int),
        min <= r <= max,
{
    let percent: u32 = percent_of(percent) as u32;
    let range: u32 = max - min;
    assert(0 <= percent * range <= 100 * range) by (nonlinear_arith)
        requires
            percent <= 100,
    ;
    min + (percent * range + 50) / 100
}

/// The ends of the percentage scale are the ends of the raw range.
pub proof fn raw_value_ends(min: int, max: int)
    requires
        min <= max,
    ensures
        raw_value(0, min, max) == min,
        raw_value(100, min, max) == max,
{
    let range = max - min;
    assert(clamp_percent(0) * range == 0) by (nonlinear_arith);
    assert(clamp_percent(100) * range == 100 * range) by (nonlinear_arith);
}

/// A higher percentage never gives a lower raw value.
pub proof fn raw_value_monotone(low: int, high: int, min: int, max: int)
    requires
        min <= max,
        low <= high,
    ensures
        raw_value(low, min, max) <= raw_value(high, min, max),
{
    let a = clamp_percent(low);
    let b = clamp_percent(high);
    assert(a * (max - min) <= b * (max - min)) by (nonlinear_arith)
        requires
            a <= b,
            min <= max,
    ;
}

/// A higher raw value never stands for a lower percentage.
pub proof fn percent_value_monotone(low: int, high: int, min: int, max: int)
    requires
        min <= max,
        low <= high,
    ensures
        percent_value(low, min, max) <= percent_value(high, min, max),
{
    let range = max - min;
    if range > 0 {
        let a = 100 * if low > min { low - min } else { 0 };
        let b = 100 * if high > min { high - min } else { 0 };
        vstd::arithmetic::div_mod::lemma_fundamental_div_mod(a, range);
        vstd::arithmetic::div_mod::lemma_fundamental_div_mod(b, range);
        vstd::arithmetic::div_mod::lemma_div_is_ordered(a, b, range);
        if a / range == b / range {
            assert(a % range <= b % range);
        } else {
            assert(a / range + 1 <= b / range);
        }
    }
}

/// On a range of at least a hundred steps the percentage that was set is the one that is read.
pub proof fn percent_survives_raw(percent: int, min: int, max: int)
    requires
        max - min >= 100,
        0 <= percent <= 100,
    ensures
        percent_value(raw_value(percent, min, max), min, max) == percent,
{
    let range = max - min;
    let scaled = percent * range;
    let offset = (scaled + 50) / 100;
    assert(0 <= scaled) by (nonlinear_arith)
        requires
            scaled == percent * range,
            0 <= percent,
            0 <= range,
    ;
    // 100 * offset lies within fifty of percent * range, and fifty is at most half the range.
    assert(scaled - 50 < 100 * offset <= scaled + 50);
    let rest = 100 * offset - scaled;
    if rest >= 0 {
        assert((100 * offset) / range == percent && (100 * offset) % range == rest)
            by {
            vstd::arithmetic::div_mod::lemma_fundamental_div_mod_converse(
                100 * offset,
                range,
                percent,
                rest,
            );
        }
        if 2 * rest == range {
            // Only with a range of one hundred, where the offset is the percentage itself.
            assert(range == 100);
            assert(offset == percent);
        }
    } else {
        assert((100 * offset) / range == percent - 1 && (100 * offset) % range == rest + range)
            by {
            assert((percent - 1) * range == scaled - range) by (nonlinear_arith)
                requires
                    scaled == percent * range,
            ;
            vstd::arithmetic::div_mod::lemma_fundamental_div_mod_converse(
                100 * offset,
                range,
                percent - 1,
                rest + range,
            );
        }
    }
}

/// On a range of at most a hundred steps the raw value that was read is the one that its
/// percentage sets.
pub proof fn raw_survives_percent(value: int, min: int, max: int)
    requires
        0 < max - min <= 100,
        min <= value <= max,
    ensures
        raw_value(percent_value(value, min, max), min, max) == value,
{
    let range = max - min;
    let offset = value - min;
    let scaled = 100 * offset;
    let percent = percent_value(value, min, max);
    let whole = scaled / range;
    let rest = scaled % range;
    vstd::arithmetic::div_mod::lemma_fundamental_div_mod(scaled, range);
    assert(0 <= whole <= 100) by (nonlinear_arith)
        requires
            range > 0,
            0 <= offset <= range,
            100 * offset == range * whole + rest,
            0 <= rest < range,
    ;
    assert(whole * range == scaled - rest) by (nonlinear_arith)
        requires
            scaled == range * whole + rest,
    ;
    assert((whole + 1) * range == scaled - rest + range) by (nonlinear_arith)
        requires
            scaled == range * whole + rest,
    ;
    if whole == 100 {
        assert(rest == 0) by (nonlinear_arith)
            requires
                range > 0,
                offset <= range,
                100 * offset == range * whole + rest,
                0 <= rest,
                whole == 100,
        ;
    }
    // percent * range lies within half the range, and so within fifty, of 100 * offset.
    assert(percent == whole || percent == whole + 1);
    if range == 100 {
        vstd::arithmetic::div_mod::lemma_fundamental_div_mod_converse(scaled, range, offset, 0);
    }
    assert(scaled <= percent * range + 50 < scaled + 100);
}

/// The capability flag of a monitor whose brightness can be set.
pub const MC_CAPS_BRIGHTNESS: u32 = 2;

/// The error code of a call that the monitor does not know.
pub const ERROR_INVALID_FUNCTION: u32 = 1;

/// The error code of a request that the monitor does not support.
pub const ERROR_NOT_SUPPORTED: u32 = 50;

/// What a failed brightness query says about the monitor.
#[derive(Clone, Copy, Debug, PartialEq, Eq, Structural)]
pub enum BrightnessErrorKind {
    /// The monitor has no brightness to set.
    Unsupported,
    /// The query went wrong.
    Failed,
}

/// What the error code of a failed brightness query says about the monitor.
pub fn classify_brightness_error(code: u32) -> (r: BrightnessErrorKind)
    ensures
        r == if code == ERROR_INVALID_FUNCTION || code == ERROR_NOT_SUPPORTED {
            BrightnessErrorKind::Unsupported
        } else {
            BrightnessErrorKind::Failed
        },
{
    if code == ERROR_INVALID_FUNCTION || code == ERROR_NOT_SUPPORTED {
        BrightnessErrorKind::Unsupported
    } else {
        BrightnessErrorKind::Failed
    }
}

/// A monitor that speaks DDC/CI.
#[derive(Debug)]
pub struct DdcMonitor {
    id: MonitorId,
    name: String,
    brightness: i32,
    handle: usize,
    min: u32,
    max: u32,
}

impl View for DdcMonitor {
    type V = MonitorModel;

    closed spec fn view(&self) -> MonitorModel {
        MonitorModel {
            id: self.id@,
            name: self.name@,
            brightness: self.brightness,
            device: DeviceModel::Ddc { handle: self.handle, min: self.min, max: self.max },
        }
    }
}

/// Whether a model is one of a DDC/CI monitor: its range is not empty and its brightness is a
/// percentage.
pub open spec fn ddc_model(model: MonitorModel) -> bool {
    &&& model.device matches DeviceModel::Ddc { min, max, .. } && min < max
    &&& 0 <= model.brightness <= 100
}

/// A DDC/CI monitor is reached by DDC/CI.
pub proof fn lemma_ddc_device(monitor: DdcMonitor)
    ensures
        monitor@.device is Ddc,
{
}

impl DdcMonitor {
    /// The range is not empty and the brightness is a percentage.
    pub open spec fn wf(self) -> bool {
        ddc_model(self@)
    }

    /// The id of the monitor.
    pub fn id(&self) -> (r: &MonitorId)
        ensures
            r@ == self@.id,
    {
        &self.id
    }

    /// The name of the monitor.
    pub fn name(&self) -> (r: &str)
        ensures
            r@ == self@.name,
    {
        self.name.as_str()
    }

    /// The brightness of the monitor, as a percentage.
    pub fn brightness(&self) -> (r: i32)
        ensures
            r == self@.brightness,
    {
        self.brightness
    }

    /// The handle by which the monitor is reached.
    pub fn handle(&self) -> (r: usize)
        ensures
            self@.device matches DeviceModel::Ddc { handle, .. } && r == handle,
    {
        self.handle
    }

    /// Whether the raw value of a percentage can be computed for this monitor.
    pub fn can_set(&self, percent: i32) -> (r: bool)
        requires
            self.wf(),
        ensures
            self@.device matches DeviceModel::Ddc { min, max, .. } && r == raw_fits(
                percent as int,
                min as int,
                max as int,
            ),
    {
        percent_fits(percent, self.min, self.max)
    }

    /// The raw value that sets the brightness to a percentage.
    pub fn raw_brightness(&self, percent: i32) -> (r: u32)
        requires
            self.wf(),
            self@.device matches DeviceModel::Ddc { min, max, .. } && raw_fits(
                percent as int,
                min as int,
                max as int,
            ),
        ensures
            self@.device matches DeviceModel::Ddc { min, max, .. } && r == raw_value(
                percent as int,
                min as int,
                max as int,
            ) && min <= r <= max,
    {
        percent_to_raw(percent, self.min, self.max)
    }

    /// Takes note of the answer to a request to set the brightness.
    pub fn set_brightness<E>(&mut self, percent: i32, reply: Result<(), E>) -> (r: Result<(), E>)
        requires
            old(self).wf(),
        ensures
            final(self).wf(),
            r == reply,
            final(self)@ == match reply {
                Ok(()) => old(self)@.with_brightness(clamp_percent(percent as int) as i32),
                Err(_) => old(self)@,
            },
    {
        if reply.is_ok() {
            self.brightness = percent_of(percent);
        }
        reply
    }
}

/// The answer to `SetMonitorBrightness`, which fails by returning zero.
pub fn set_brightness_reply(ok: i32, code: u32) -> (r: Result<(), MonitorError>)
    ensures
        match r {
            Ok(()) => ok != 0,
            Err(error) => ok == 0 && error@ == (ErrorModel::Win32 {
                context: "SetMonitorBrightness failed"@,
                code,
            }),
        },
{
    if ok == 0 {
        return Err(win32_status("SetMonitorBrightness failed", code));
    }
    Ok(())
}

/// The raw brightness that a monitor reports, and the range that it lies in.
#[derive(Clone, Copy, Debug)]
pub struct RawBrightness {
    pub min: u32,
    pub current: u32,
    pub max: u32,
}

/// What a physical monitor says of itself. Where its capabilities rule a brightness out, what
/// stands for the brightness is not looked at.
pub struct PhysicalProbe {
    /// The handle by which the monitor is reached.
    pub handle: usize,
    /// The capability flags, where the monitor could be asked for them.
    pub capabilities: Option<u32>,
    /// The brightness, or the error code of the query.
    pub brightness: Result<RawBrightness, u32>,
    /// The description, zero-terminated.
    pub description: Vec<u16>,
}

/// The display name that stands for one that could not be found out.
pub open spec fn unknown_display() -> Seq<char> {
    "UNKNOWN-DISPLAY"@
}

/// Whether the capability flags of a monitor leave it a brightness.
pub open spec fn brightness_possible(capabilities: Option<u32>) -> bool {
    match capabilities {
        Some(flags) => flags & MC_CAPS_BRIGHTNESS != 0,
        None => true,
    }
}

/// The id of a monitor: its plug-and-play id where the display shows on one monitor alone, and
/// otherwise what is known of the display and the monitor.
pub open spec fn ddc_id(
    display: Seq<char>,
    pnp_ids: Seq<Seq<char>>,
    hmonitor: nat,
    index: nat,
    name: Seq<char>,
) -> Seq<char> {
    if pnp_ids.len() == 1 {
        "ddc:"@ + pnp_ids[0] + ":"@ + decimal(index)
    } else if pnp_ids.len() == 0 && display != unknown_display() {
        "ddc-gdi:"@ + upper(display) + ":"@ + decimal(index) + ":"@ + upper(name)
    } else if pnp_ids.len() == 0 {
        "ddc-hmonitor:"@ + upper_hex(hmonitor) + ":"@ + decimal(index) + ":"@ + upper(name)
    } else {
        "ddc-clone:"@ + joined(pnp_ids, "|"@) + ":"@ + decimal(index) + ":"@ + upper(name)
    }
}

/// The monitor that a probe describes: none where it has no brightness to set, an error where
/// the brightness could not be read or makes no sense.
pub open spec fn probe_result(
    hmonitor: usize,
    display: Seq<char>,
    pnp_ids: Seq<Seq<char>>,
    index: nat,
    probe: PhysicalProbe,
) -> Result<Option<MonitorModel>, ErrorModel> {
    if !brightness_possible(probe.capabilities) {
        Ok(None)
    } else {
        match probe.brightness {
            Err(code) => if code == ERROR_INVALID_FUNCTION || code == ERROR_NOT_SUPPORTED {
                Ok(None)
            } else {
                Err(ErrorModel::Win32 { context: "GetMonitorBrightness failed"@, code })
            },
            Ok(raw) => if raw.max <= raw.min {
                Err(
                    ErrorModel::InvalidData {
                        context: "invalid DDC brightness range"@,
                        details: "minimum "@ + decimal(raw.min as nat) + ", maximum "@ + decimal(
                            raw.max as nat,
                        ),
                    },
                )
            } else {
                let name = match terminated_text(probe.description@) {
                    Some(text) => text,
                    None => display,
                };
                Ok(
                    Some(
                        MonitorModel {
                            id: ddc_id(display, pnp_ids, hmonitor as nat, index, name),
                            name,
                            brightness: percent_value(
                                raw.current as int,
                                raw.min as int,
                                raw.max as int,
                            ) as i32,
                            device: DeviceModel::Ddc {
                                handle: probe.handle,
                                min: raw.min,
                                max: raw.max,
                            },
                        },
                    ),
                )
            },
        }
    }
}

/// Whether a monitor is worth asking for its brightness.
pub fn may_have_brightness(capabilities: Option<u32>) -> (r: bool)
    ensures
        r == brightness_possible(capabilities),
{
    match capabilities {
        Some(flags) => flags & MC_CAPS_BRIGHTNESS != 0,
        None => true,
    }
}

/// The id of a monitor.
fn monitor_id(
    display_name: &str,
    pnp_ids: &[String],
    hmonitor: usize,
    physical_index: usize,
    name: &str,
) -> (r: MonitorId)
    ensures
        r@ == ddc_id(
            display_name@,
            views(pnp_ids@),
            hmonitor as nat,
            physical_index as nat,
            name@,
        ),
{
    let index = decimal_string(physical_index as u64);
    if pnp_ids.len() == 1 {
        let head = concat3("ddc:", pnp_ids[0].as_str(), ":");
        let full = concat(head.as_str(), index.as_str());
        return MonitorId::new(full.as_str());
    }
    let head = if pnp_ids.len() == 0 {
        if display_name.to_owned() == "UNKNOWN-DISPLAY".to_owned() {
            let number = upper_hex_string(hmonitor as u64);
            concat3("ddc-hmonitor:", number.as_str(), ":")
        } else {
            let display = to_upper(display_name);
            concat3("ddc-gdi:", display.as_str(), ":")
        }
    } else {
        let all = join(pnp_ids, "|");
        concat3("ddc-clone:", all.as_str(), ":")
    };
    let numbered = concat3(head.as_str(), index.as_str(), ":");
    let raised = to_upper(name);
    let full = concat(numbered.as_str(), raised.as_str());
    MonitorId::new(full.as_str())
}

/// The monitor that a probe describes.
pub fn build_monitor(
    hmonitor: usize,
    display_name: &str,
    pnp_ids: &[String],
    physical_index: usize,
    probe: &PhysicalProbe,
) -> (r: Result<Option<DdcMonitor>, MonitorError>)
    ensures
        match r {
            Ok(Some(monitor)) => monitor.wf() && probe_result(
                hmonitor,
                display_name@,
                views(pnp_ids@),
                physical_index as nat,
                *probe,
            ) == Ok::<Option<MonitorModel>, ErrorModel>(Some(monitor@)),
            Ok(None) => probe_result(
                hmonitor,
                display_name@,
                views(pnp_ids@),
                physical_index as nat,
                *probe,
            ) == Ok::<Option<MonitorModel>, ErrorModel>(None),
            Err(error) => probe_result(
                hmonitor,
                display_name@,
                views(pnp_ids@),
                physical_index as nat,
                *probe,
            ) == Err::<Option<MonitorModel>, ErrorModel>(error@),
        },
{
    if !may_have_brightness(probe.capabilities) {
        return Ok(None);
    }
    let raw = match probe.brightness {
        Err(code) => {
            match classify_brightness_error(code) {
                BrightnessErrorKind::Unsupported => {
                    return Ok(None);
                },
                BrightnessErrorKind::Failed => {},
            }
            return Err(win32_status("GetMonitorBrightness failed", code));
        },
        Ok(raw) => raw,
    };
    if raw.max <= raw.min {
        let min = decimal_string(raw.min as u64);
        let max = decimal_string(raw.max as u64);
        let head = concat3("minimum ", min.as_str(), ", maximum ");
        return Err(
            MonitorError::InvalidData {
                context: "invalid DDC brightness range",
                details: concat(head.as_str(), max.as_str()),
            },
        );
    }
    let name = match wide_to_string(&probe.description) {
        Some(text) => text,
        None => display_name.to_owned(),
    };
    let id = monitor_id(display_name, pnp_ids, hmonitor, physical_index, name.as_str());
    Ok(
        Some(
            DdcMonitor {
                id,
                name,
                brightness: raw_to_percent(raw.current, raw.min, raw.max),
                handle: probe.handle,
                min: raw.min,
                max: raw.max,
            },
        ),
    )
}

/// The physical monitors of a display, or the error code of the call that failed.
pub enum PhysicalListing {
    /// The monitors could not be counted.
    CountFailed(u32),
    /// The monitors could not be listed.
    ListFailed(u32),
    /// What the monitors say of themselves.
    Listed(Vec<PhysicalProbe>),
}

/// What the system says about a display.
pub struct DisplayProbe {
    /// The display's handle.
    pub hmonitor: usize,
    /// The display's device name, zero-terminated, where the system gave it out.
    pub device: Option<Vec<u16>>,
    /// The monitors that show the display.
    pub physical: PhysicalListing,
}

/// The monitors that were found, and what went wrong with others.
#[derive(Debug)]
pub struct DdcDiscovery {
    pub monitors: Vec<DdcMonitor>,
    pub warnings: Vec<String>,
}

/// What the monitors of a list are.
pub open spec fn models(monitors: Seq<DdcMonitor>) -> Seq<MonitorModel> {
    Seq::new(monitors.len(), |i: int| monitors[i]@)
}

/// The device name in a buffer that the system gave out.
pub open spec fn device_name(device: Option<Vec<u16>>) -> Option<Seq<char>> {
    match device {
        Some(units) => terminated_text(units@),
        None => None,
    }
}

/// The device name in a buffer that the system gave out.
pub fn display_name(device: &Option<Vec<u16>>) -> (r: Option<String>)
    ensures
        match r {
            Some(name) => device_name(*device) == Some(name@),
            None => device_name(*device) is None,
        },
{
    match device {
        Some(units) => wide_to_string(units),
        None => None,
    }
}

/// The name under which a display is spoken of.
pub open spec fn display_text(probe: DisplayProbe) -> Seq<char> {
    match device_name(probe.device) {
        Some(name) => name,
        None => unknown_display(),
    }
}

/// The warning about something of a display that could not be inspected.
pub open spec fn inspect_warning(display: Seq<char>, error: ErrorModel) -> Seq<char> {
    "failed to inspect "@ + display + ": "@ + error.text()
}

/// The warning about something of a display that could not be inspected.
fn inspect_message(display_name: &str, error: &MonitorError) -> (r: String)
    ensures
        r@ == inspect_warning(display_name@, error@),
{
    let message = error.to_string();
    let head = concat3("failed to inspect ", display_name, ": ");
    concat(head.as_str(), message.as_str())
}

/// The monitors among the first probes of a display.
pub open spec fn probed_monitors(
    hmonitor: usize,
    display: Seq<char>,
    pnp_ids: Seq<Seq<char>>,
    probes: Seq<PhysicalProbe>,
) -> Seq<MonitorModel>
    decreases probes.len(),
{
    if probes.len() == 0 {
        seq![]
    } else {
        let index = (probes.len() - 1) as nat;
        let earlier = probed_monitors(hmonitor, display, pnp_ids, probes.drop_last());
        match probe_result(hmonitor, display, pnp_ids, index, probes.last()) {
            Ok(Some(monitor)) => earlier.push(monitor),
            _ => earlier,
        }
    }
}

/// The warnings about the first probes of a display.
pub open spec fn probed_warnings(
    hmonitor: usize,
    display: Seq<char>,
    pnp_ids: Seq<Seq<char>>,
    probes: Seq<PhysicalProbe>,
) -> Seq<Seq<char>>
    decreases probes.len(),
{
    if probes.len() == 0 {
        seq![]
    } else {
        let index = (probes.len() - 1) as nat;
        let earlier = probed_warnings(hmonitor, display, pnp_ids, probes.drop_last());
        match probe_result(hmonitor, display, pnp_ids, index, probes.last()) {
            Err(error) => earlier.push(inspect_warning(display, error)),
            _ => earlier,
        }
    }
}

/// The monitors of a display.
pub open spec fn display_monitors(probe: DisplayProbe, paths: ActiveDisplayPaths) -> Seq<
    MonitorModel,
> {
    let display = display_text(probe);
    match probe.physical {
        PhysicalListing::Listed(probes) => probed_monitors(
            probe.hmonitor,
            display,
            paths.targets(display),
            probes@,
        ),
        _ => seq![],
    }
}

/// The warnings about a display.
pub open spec fn display_warnings(probe: DisplayProbe, paths: ActiveDisplayPaths) -> Seq<
    Seq<char>,
> {
    let display = display_text(probe);
    match probe.physical {
        PhysicalListing::CountFailed(code) => seq![
            inspect_warning(
                display,
                ErrorModel::Win32 {
                    context: "GetNumberOfPhysicalMonitorsFromHMONITOR failed"@,
                    code,
                },
            ),
        ],
        PhysicalListing::ListFailed(code) => seq![
            inspect_warning(
                display,
                ErrorModel::Win32 { context: "GetPhysicalMonitorsFromHMONITOR failed"@, code },
            ),
        ],
        PhysicalListing::Listed(probes) => probed_warnings(
            probe.hmonitor,
            display,
            paths.targets(display),
            probes@,
        ),
    }
}

/// The monitors of a display.
pub fn discover_physical_monitors(probe: &DisplayProbe, paths: &ActiveDisplayPaths) -> (r:
    DdcDiscovery)
    ensures
        models(r.monitors@) == display_monitors(*probe, *paths),
        views(r.warnings@) == display_warnings(*probe, *paths),
        forall|i: int| 0 <= i < r.monitors@.len() ==> (#[trigger] r.monitors@[i]).wf(),
{
    let display = match display_name(&probe.device) {
        Some(name) => name,
        None => "UNKNOWN-DISPLAY".to_owned(),
    };
    let pnp_ids = paths.pnp_ids_for_gdi_name(display.as_str());
    let mut monitors: Vec<DdcMonitor> = Vec::new();
    let mut warnings: Vec<String> = Vec::new();
    match &probe.physical {
        PhysicalListing::CountFailed(code) => {
            let error = win32_status("GetNumberOfPhysicalMonitorsFromHMONITOR failed", *code);
            warnings.push(inspect_message(display.as_str(), &error));
        },
        PhysicalListing::ListFailed(code) => {
            let error = win32_status("GetPhysicalMonitorsFromHMONITOR failed", *code);
            warnings.push(inspect_message(display.as_str(), &error));
        },
        PhysicalListing::Listed(probes) => {
            let mut i: usize = 0;
            while i < probes.len()
                invariant
                    i <= probes@.len(),
                    models(monitors@) == probed_monitors(
                        probe.hmonitor,
                        display@,
                        views(pnp_ids@),
                        probes@.take(i as int),
                    ),
                    views(warnings@) == probed_warnings(
                        probe.hmonitor,
                        display@,
                        views(pnp_ids@),
                        probes@.take(i as int),
                    ),
                    forall|k: int| 0 <= k < monitors@.len() ==> (#[trigger] monitors@[k]).wf(),
                decreases probes@.len() - i,
            {
                let ghost monitors_before = models(monitors@);
                let ghost warnings_before = views(warnings@);
                assert(probes@.take(i + 1).drop_last() == probes@.take(i as int));
                match build_monitor(probe.hmonitor, display.as_str(), pnp_ids, i, &probes[i]) {
                    Ok(Some(monitor)) => {
                        assert(models(monitors@.push(monitor)) =~= monitors_before.push(monitor@));
                        monitors.push(monitor);
                    },
                    Ok(None) => {},
                    Err(error) => {
                        let warning = inspect_message(display.as_str(), &error);
                        assert(views(warnings@.push(warning)) =~= warnings_before.push(warning@));
                        warnings.push(warning);
                    },
                }
                i += 1;
            }
            assert(probes@.take(i as int) == probes@);
        },
    }
    assert(models(monitors@) =~= display_monitors(*probe, *paths));
    assert(views(warnings@) =~= display_warnings(*probe, *paths));
    DdcDiscovery { monitors, warnings }
}

/// The monitors of all displays, one display after the other.
pub open spec fn all_monitors(displays: Seq<DisplayProbe>, paths: ActiveDisplayPaths) -> Seq<
    MonitorModel,
>
    decreases displays.len(),
{
    if displays.len() == 0 {
        seq![]
    } else {
        all_monitors(displays.drop_last(), paths) + display_monitors(displays.last(), paths)
    }
}

/// The warnings about all displays, one display after the other.
pub open spec fn all_warnings(displays: Seq<DisplayProbe>, paths: ActiveDisplayPaths) -> Seq<
    Seq<char>,
>
    decreases displays.len(),
{
    if displays.len() == 0 {
        seq![]
    } else {
        all_warnings(displays.drop_last(), paths) + display_warnings(displays.last(), paths)
    }
}

/// The monitors of all displays, or the error where the displays could not be enumerated.
pub fn discover(displays: Result<Vec<DisplayProbe>, u32>, paths: &ActiveDisplayPaths) -> (r: Result<
    DdcDiscovery,
    MonitorError,
>)
    ensures
        match (displays, r) {
            (Ok(probes), Ok(discovery)) => {
                &&& models(discovery.monitors@) == all_monitors(probes@, *paths)
                &&& views(discovery.warnings@) == all_warnings(probes@, *paths)
                &&& forall|i: int|
                    0 <= i < discovery.monitors@.len() ==> (#[trigger] discovery.monitors@[i]).wf()
            },
            (Err(code), Err(error)) => error@ == (ErrorModel::Win32 {
                context: "EnumDisplayMonitors failed"@,
                code,
            }),
            _ => false,
        },
{
    let probes = match displays {
        Ok(probes) => probes,
        Err(code) => {
            return Err(win32_status("EnumDisplayMonitors failed", code));
        },
    };
    let mut monitors: Vec<DdcMonitor> = Vec::new();
    let mut warnings: Vec<String> = Vec::new();
    let mut i: usize = 0;
    assert(models(monitors@) =~= seq![]);
    assert(views(warnings@) =~= seq![]);
    while i < probes.len()
        invariant
            i <= probes@.len(),
            models(monitors@) == all_monitors(probes@.take(i as int), *paths),
            views(warnings@) == all_warnings(probes@.take(i as int), *paths),
            forall|k: int| 0 <= k < monitors@.len() ==> (#[trigger] monitors@[k]).wf(),
        decreases probes@.len() - i,
    {
        assert(probes@.take(i + 1).drop_last() == probes@.take(i as int));
        let mut discovery = discover_physical_monitors(&probes[i], paths);
        assert(models(monitors@ + discovery.monitors@) =~= models(monitors@) + models(
            discovery.monitors@,
        ));
        assert(views(warnings@ + discovery.warnings@) =~= views(warnings@) + views(
            discovery.warnings@,
        ));
        monitors.append(&mut discovery.monitors);
        warnings.append(&mut discovery.warnings);
        i += 1;
    }
    assert(probes@.take(i as int) == probes@);
    Ok(DdcDiscovery { monitors, warnings })
}

} // verus!

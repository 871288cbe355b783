//! Percentages and raw values, and the requests and readings that are made of them.
use vstd::prelude::*;

use crate::monitor_control::ddc::{percent_survives_raw, percent_value, raw_value};
use crate::monitor_control::{
    clamp_percent, monitor_model, CommandModel, DeviceModel, MonitorModel,
};

verus! {

/// A percentage is kept as it is, and what lies outside the range becomes its nearer end.
pub proof fn percentages_are_kept(value: int)
    ensures
        0 <= clamp_percent(value) <= 100,
        0 <= value <= 100 ==> clamp_percent(value) == value,
        value < 0 ==> clamp_percent(value) == 0,
        value > 100 ==> clamp_percent(value) == 100,
{
}

/// Whether a percentage is the one that a raw value stands for in a range. It is the nearest one:
/// no more than half a percent away. What lies below the range is zero, what lies above it a
/// hundred.
pub open spec fn reads_as(value: int, min: int, max: int, percent: int) -> bool {
    let range = max - min;
    let hundredfold = 100 * (value - min);
    &&& 0 <= percent <= 100
    &&& value <= min ==> percent == 0
    &&& value >= max ==> percent == 100
    &&& min <= value <= max ==> -range <= 2 * (percent * range - hundredfold) <= range
}

/// Whether a raw value is the one for a percentage in a range. It is the nearest one, the upper one
/// of two that are equally near, and lies in the range: at its ends for zero and for a hundred.
pub open spec fn writes_as(percent: int, min: int, max: int, raw: int) -> bool {
    let range = max - min;
    &&& min <= raw <= max
    &&& percent <= 0 ==> raw == min
    &&& percent >= 100 ==> raw == max
    &&& 0 <= percent <= 100 ==> percent * range - 50 < 100 * (raw - min) <= percent * range + 50
}

/// The percentage of a raw value is the nearest one.
pub proof fn percentage_is_the_nearest(value: int, min: int, max: int)
    requires
        min < max,
    ensures
        reads_as(value, min, max, percent_value(value, min, max)),
{
    let range = max - min;
    let offset = if value > min { value - min } else { 0 };
    let scaled = 100 * offset;
    let whole = scaled / range;
    let rest = scaled % range;
    let percent = percent_value(value, min, max);
    vstd::arithmetic::div_mod::lemma_fundamental_div_mod(scaled, range);
    assert(whole >= 0) by (nonlinear_arith)
        requires
            scaled >= 0,
            range > 0,
            scaled == range * whole + rest,
            0 <= rest < range,
    ;
    assert(whole * range == scaled - rest && (whole + 1) * range == scaled - rest + range)
        by (nonlinear_arith)
        requires
            scaled == range * whole + rest,
    ;
    if value <= min {
        assert(whole == 0) by (nonlinear_arith)
            requires
                range > 0,
                0 == range * whole + rest,
                0 <= rest < range,
        ;
    } else if value >= max {
        assert(whole >= 100) by (nonlinear_arith)
            requires
                offset >= range,
                range > 0,
                100 * offset == range * whole + rest,
                0 <= rest < range,
        ;
        if value == max {
            assert(100 * range == scaled);
        }
    } else {
        assert(whole < 100) by (nonlinear_arith)
            requires
                offset < range,
                range > 0,
                100 * offset == range * whole + rest,
                0 <= rest,
        ;
    }
}

/// Halfway between two percentages the upper one is read, but for the four halves whose
/// double-precision value falls short of them.
pub proof fn half_percentages_round_up(value: int, min: int, max: int, k: int)
    requires
        min < max,
        min <= value <= max,
        2 * (100 * (value - min)) == (2 * k + 1) * (max - min),
    ensures
        percent_value(value, min, max) == if k == 14 || k == 28 || k == 56 || k == 57 {
            k
        } else {
            k + 1
        },
{
    let range = max - min;
    let scaled = 100 * (value - min);
    let rest = scaled - k * range;
    assert(2 * rest == range && (2 * k + 1) * range == 2 * (k * range) + range)
        by (nonlinear_arith)
        requires
            2 * scaled == (2 * k + 1) * range,
            rest == scaled - k * range,
    ;
    vstd::arithmetic::div_mod::lemma_fundamental_div_mod_converse(scaled, range, k, rest);
    assert(k < 100) by (nonlinear_arith)
        requires
            scaled <= 100 * range,
            range > 0,
            scaled == k * range + rest,
            2 * rest == range,
    ;
}

/// The raw value of a percentage is the nearest one.
pub proof fn raw_value_is_the_nearest(percent: int, min: int, max: int)
    requires
        min <= max,
    ensures
        writes_as(percent, min, max, raw_value(percent, min, max)),
{
    let range = max - min;
    let kept = clamp_percent(percent);
    let scaled = kept * range;
    assert(0 <= scaled <= 100 * range) by (nonlinear_arith)
        requires
            0 <= kept <= 100,
            0 <= range,
            scaled == kept * range,
    ;
    if percent <= 0 {
        assert(scaled == 0) by (nonlinear_arith)
            requires
                kept == 0,
                scaled == kept * range,
        ;
    }
    if percent >= 100 {
        assert(scaled == 100 * range) by (nonlinear_arith)
            requires
                kept == 100,
                scaled == kept * range,
        ;
    }
}

/// A request to set a monitor goes to that monitor. One by DDC/CI hands it the nearest raw value in
/// its own range, which reads as the percentage that was asked for where the range has at least a
/// hundred steps; one by WMI hands it the percentage itself.
pub proof fn request_sets_the_percentage(monitor: MonitorModel, percent: int)
    requires
        monitor_model(monitor),
    ensures
        match (monitor.device, monitor.command(percent)) {
            (DeviceModel::Ddc { handle, min, max }, CommandModel::Ddc { handle: to, raw }) => {
                &&& to == handle
                &&& writes_as(percent, min as int, max as int, raw)
                &&& 0 <= percent <= 100 && max - min >= 100 ==> percent_value(
                    raw,
                    min as int,
                    max as int,
                ) == percent
            },
            (DeviceModel::Wmi { instance_path }, CommandModel::Wmi {
                instance_path: to,
                brightness,
            }) => {
                &&& to == instance_path
                &&& 0 <= percent <= 100 ==> brightness == percent
                &&& percent < 0 ==> brightness == 0
                &&& percent > 100 ==> brightness == 100
            },
            _ => false,
        },
{
    match monitor.device {
        DeviceModel::Ddc { min, max, .. } => {
            raw_value_is_the_nearest(percent, min as int, max as int);
            if 0 <= percent <= 100 && max - min >= 100 {
                percent_survives_raw(percent, min as int, max as int);
            }
        },
        DeviceModel::Wmi { .. } => {},
    }
}

/// More is never asked for as less: of two requests to one monitor, the one for the higher
/// percentage holds no lower value.
pub proof fn requests_keep_the_order_of_percentages(monitor: MonitorModel, low: int, high: int)
    requires
        monitor_model(monitor),
        low <= high,
    ensures
        match (monitor.command(low), monitor.command(high)) {
            (CommandModel::Ddc { raw: a, .. }, CommandModel::Ddc { raw: b, .. }) => a <= b,
            (CommandModel::Wmi { brightness: a, .. }, CommandModel::Wmi { brightness: b, .. }) => a
                <= b,
            _ => false,
        },
{
    match monitor.device {
        DeviceModel::Ddc { min, max, .. } => {
            crate::monitor_control::ddc::raw_value_monotone(low, high, min as int, max as int);
        },
        DeviceModel::Wmi { .. } => {},
    }
}

/// Every request for a range whose hundredfold, with the fifty that rounds, fits in 32 bits can be
/// computed.
pub proof fn requests_of_usual_ranges_can_be_computed(monitor: MonitorModel, percent: int)
    requires
        monitor.device matches DeviceModel::Ddc { min, max, .. } ==> 100 * (max - min) + 50
            <= u32::MAX,
        monitor_model(monitor),
    ensures
        monitor.can_set(percent),
{
    match monitor.device {
        DeviceModel::Ddc { min, max, .. } => {
            let kept = clamp_percent(percent);
            assert(kept * (max - min) <= 100 * (max - min)) by (nonlinear_arith)
                requires
                    0 <= kept <= 100,
                    min <= max,
            ;
        },
        DeviceModel::Wmi { .. } => {},
    }
}

} // verus!

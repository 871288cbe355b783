//! Monitors that are set through WMI.
use vstd::prelude::*;

use crate::monitor_control::{
    clamp_percent, percent_of, win32_status, DeviceModel, ErrorModel, MonitorError, MonitorId,
    MonitorModel,
};

verus! {

/// A monitor that is set through WMI.
#[derive(Debug)]
pub struct WmiMonitor {
    id: MonitorId,
    name: String,
    brightness: i32,
    instance_path: String,
}

impl View for WmiMonitor {
    type V = MonitorModel;

    closed spec fn view(&self) -> MonitorModel {
        MonitorModel {
            id: self.id@,
            name: self.name@,
            brightness: self.brightness,
            device: DeviceModel::Wmi { instance_path: self.instance_path@ },
        }
    }
}

/// A WMI monitor is reached by WMI.
pub proof fn lemma_wmi_device(monitor: WmiMonitor)
    ensures
        monitor@.device is Wmi,
{
}

impl WmiMonitor {
    /// The monitor with the given id, name and brightness, reached by the given object path.
    pub fn new(id: MonitorId, name: String, brightness: i32, instance_path: String) -> (r: Self)
        ensures
            r@ == (MonitorModel {
                id: id@,
                name: name@,
                brightness,
                device: DeviceModel::Wmi { instance_path: instance_path@ },
            }),
    {
        WmiMonitor { id, name, brightness, instance_path }
    }

    /// The id of the monitor.
    pub fn id(&self) -> (r: &MonitorId)
        ensures
            r@ == self@.id,
    {
        &self.id
    }

    /// The name of the monitor.
    pub fn name(&self) -> (r: &str)
        ensures
            r@ == self@.name,
    {
        self.name.as_str()
    }

    /// The brightness of the monitor.
    pub fn brightness(&self) -> (r: i32)
        ensures
            r == self@.brightness,
    {
        self.brightness
    }

    /// The object path by which the monitor is reached.
    pub fn instance_path(&self) -> (r: &str)
        ensures
            self@.device == (DeviceModel::Wmi { instance_path: r@ }),
    {
        self.instance_path.as_str()
    }

    /// Takes note of the answer to a request to set the brightness.
    pub fn set_brightness<E>(&mut self, percent: i32, reply: Result<(), E>) -> (r: Result<(), E>)
        ensures
            r == reply,
            final(self)@ == match reply {
                Ok(()) => old(self)@.with_brightness(clamp_percent(percent as int) as i32),
                Err(_) => old(self)@,
            },
    {
        if reply.is_ok() {
            self.brightness = percent_of(percent);
        }
        reply
    }
}

/// The value that `WmiSetBrightness` takes for a percentage.
pub fn wmi_brightness(percent: i32) -> (r: u8)
    ensures
        r == clamp_percent(percent as int),
{
    percent_of(percent) as u8
}

/// What came of a call of `WmiSetBrightness`.
pub enum WmiReply {
    /// There was no connection to make the call with.
    NotConnected(String),
    /// The call could not be made.
    CallFailed(String),
    /// The value that the call returned, zero where it worked.
    Returned(u32),
}

/// The error of a call of `WmiSetBrightness`, where it did not work.
pub open spec fn wmi_reply_error(reply: WmiReply) -> Option<ErrorModel> {
    match reply {
        WmiReply::NotConnected(details) => Some(
            ErrorModel::Wmi { context: "WMI connection failed"@, details: details@ },
        ),
        WmiReply::CallFailed(details) => Some(
            ErrorModel::Wmi { context: "WmiSetBrightness failed"@, details: details@ },
        ),
        WmiReply::Returned(value) => if value != 0 {
            Some(ErrorModel::Win32 { context: "WmiSetBrightness failed"@, code: value })
        } else {
            None
        },
    }
}

/// The answer to a request to set the brightness through WMI.
pub fn set_brightness_reply(reply: WmiReply) -> (r: Result<(), MonitorError>)
    ensures
        match r {
            Ok(()) => wmi_reply_error(reply) is None,
            Err(error) => wmi_reply_error(reply) == Some(error@),
        },
{
    match reply {
        WmiReply::NotConnected(details) => Err(MonitorError::wmi("WMI connection failed", details)),
        WmiReply::CallFailed(details) => Err(MonitorError::wmi("WmiSetBrightness failed", details)),
        WmiReply::Returned(value) => {
            if value != 0 {
                return Err(win32_status("WmiSetBrightness failed", value));
            }
            Ok(())
        },
    }
}

/// The monitors that were found, and what went wrong on the way.
#[derive(Debug)]
pub struct WmiDiscovery {
    pub monitors: Vec<WmiMonitor>,
    pub warnings: Vec<String>,
}

/// What the monitors of a list are.
pub open spec fn models(monitors: Seq<WmiMonitor>) -> Seq<MonitorModel> {
    Seq::new(monitors.len(), |i: int| monitors[i]@)
}

} // verus!

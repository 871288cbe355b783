//! The monitors of a machine, as far as the platform lets them be reached.
use vstd::prelude::*;

use crate::text::{decimal, decimal_string};

pub mod ddc;
pub mod display_config;
pub mod windows;
pub mod wmi;

verus! {

/// The place of a monitor in the list of monitors.
#[derive(Clone, Copy, Debug, PartialEq, Eq, Hash, Structural)]
pub struct MonitorId(usize);

impl View for MonitorId {
    type V = nat;

    closed spec fn view(&self) -> nat {
        self.0 as nat
    }
}

impl MonitorId {
    /// The id of the monitor at the given place.
    pub fn from_index(index: usize) -> (r: Self)
        ensures
            r@ == index,
    {
        MonitorId(index)
    }

    /// The id that the user interface knows by the given number, which must not be negative.
    pub fn from_ui(value: i32) -> (r: Option<Self>)
        ensures
            match r {
                Some(id) => value >= 0 && id@ == value,
                None => value < 0,
            },
    {
        if value < 0 {
            None
        } else {
            Some(MonitorId(value as usize))
        }
    }

    /// The place of the monitor.
    pub fn index(self) -> (r: usize)
        ensures
            r == self@,
    {
        self.0
    }

    /// Whether the user interface has a number for the id.
    pub fn fits_ui(self) -> (r: bool)
        ensures
            r == (self@ <= i32::MAX),
    {
        self.0 <= 2147483647
    }

    /// The number by which the user interface knows the id.
    pub fn to_ui(self) -> (r: i32)
        requires
            self@ <= i32::MAX,
        ensures
            r == self@,
    {
        self.0 as i32
    }

    /// The id in digits.
    pub fn to_string(&self) -> (r: String)
        ensures
            r@ == decimal(self@),
    {
        decimal_string(self.0 as u64)
    }
}

/// The user interface gets back the id that it was given.
pub proof fn ui_round_trip(id: MonitorId, value: i32, back: MonitorId)
    requires
        value == id@,
        back@ == value,
    ensures
        back == id,
{
}

/// What is shown of a monitor.
#[derive(Debug)]
pub struct MonitorSnapshot {
    pub id: MonitorId,
    pub name: String,
    pub brightness: i32,
}

/// Monitors cannot be reached on this platform.
#[derive(Clone, Copy, Debug, PartialEq, Eq, Structural)]
pub struct MonitorError;

impl MonitorError {
    /// The message of the error.
    pub fn to_string(&self) -> (r: String)
        ensures
            r@ == "monitor brightness is only supported on Windows"@,
    {
        "monitor brightness is only supported on Windows".to_owned()
    }
}

/// Finds no monitors, on a platform where they cannot be reached.
#[derive(Clone, Copy, Debug, PartialEq, Eq, Structural)]
pub struct MonitorController;

impl MonitorController {
    /// The controller.
    pub fn new() -> (r: Self)
        ensures
            r == MonitorController,
    {
        MonitorController
    }

    /// Looks for monitors, of which there are none.
    pub fn refresh(&mut self) -> (r: Result<(), MonitorError>)
        ensures
            r == Ok::<(), MonitorError>(()),
            *final(self) == *old(self),
    {
        Ok(())
    }

    /// What is shown of the monitors: nothing.
    pub fn snapshots(&self) -> (r: Vec<MonitorSnapshot>)
        ensures
            r@ == Seq::<MonitorSnapshot>::empty(),
    {
        Vec::new()
    }

    /// Fails, whatever is asked for.
    pub fn set_brightness(&mut self, _id: MonitorId, _percent: i32) -> (r: Result<
        (),
        MonitorError,
    >)
        ensures
            r == Err::<(), MonitorError>(MonitorError),
            *final(self) == *old(self),
    {
        Err(MonitorError)
    }
}

} // verus!

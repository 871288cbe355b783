//! What there is of the desktop where the system is not Windows.
use vstd::prelude::*;

use crate::windows_integration::{GlobalMouseEvent, TryRecvError, WorkArea};

verus! {

/// The desktop cannot be reached.
#[derive(Clone, Copy, Debug, PartialEq, Eq, Structural)]
pub struct WindowsIntegrationError;

impl WindowsIntegrationError {
    /// The message of the error.
    pub fn to_string(&self) -> (r: String)
        ensures
            r@ == "Windows integration is only supported on Windows"@,
    {
        "Windows integration is only supported on Windows".to_owned()
    }
}

/// A watcher that sees no mouse.
#[derive(Clone, Copy, Debug, PartialEq, Eq, Structural)]
pub struct GlobalMouseWatcher;

/// The right to be the only instance, which every instance has.
#[derive(Clone, Copy, Debug, PartialEq, Eq, Structural)]
pub struct SingleInstanceGuard;

impl GlobalMouseWatcher {
    /// There is no hook to watch the mouse by.
    pub fn new() -> (r: Result<Self, WindowsIntegrationError>)
        ensures
            r == Err::<Self, WindowsIntegrationError>(WindowsIntegrationError),
    {
        Err(WindowsIntegrationError)
    }

    /// The watcher that sees no mouse.
    pub fn polling() -> (r: Self)
        ensures
            r == GlobalMouseWatcher,
    {
        GlobalMouseWatcher
    }

    /// There is never an event.
    pub fn try_recv(&self) -> (r: Result<GlobalMouseEvent, TryRecvError>)
        ensures
            r == Err::<GlobalMouseEvent, TryRecvError>(TryRecvError::Empty),
    {
        Err(TryRecvError::Empty)
    }

    /// There is nothing to drain: afterwards, as before, no event waits.
    pub fn drain(&mut self)
        ensures
            *final(self) == *old(self),
    {
    }

    /// No click has been seen.
    pub fn latest_click_id(&self) -> (r: u64)
        ensures
            r == 0,
    {
        0
    }
}

/// There is no work area to be had.
pub fn work_area_near_cursor() -> (r: Option<WorkArea>)
    ensures
        r is None,
{
    None
}

/// Every instance may run.
pub fn acquire_single_instance() -> (r: Result<Option<SingleInstanceGuard>, i32>)
    ensures
        r == Ok::<Option<SingleInstanceGuard>, i32>(Some(SingleInstanceGuard)),
{
    Ok(Some(SingleInstanceGuard))
}

/// The theme cannot be read.
pub fn windows_main_dark_mode() -> (r: Result<bool, WindowsIntegrationError>)
    ensures
        r == Err::<bool, WindowsIntegrationError>(WindowsIntegrationError),
{
    Err(WindowsIntegrationError)
}

/// The theme cannot be read.
pub fn next_windows_dark_mode() -> (r: Result<bool, WindowsIntegrationError>)
    ensures
        r == Err::<bool, WindowsIntegrationError>(WindowsIntegrationError),
{
    Err(WindowsIntegrationError)
}

/// The theme cannot be set.
pub fn set_windows_dark_mode(_dark_mode: bool) -> (r: Result<(), WindowsIntegrationError>)
    ensures
        r == Err::<(), WindowsIntegrationError>(WindowsIntegrationError),
{
    Err(WindowsIntegrationError)
}

} // verus!

//! The commands that a worker carries out on the monitors, and the events that it answers with.
use vstd::prelude::*;

use crate::monitor_control::ddc::DdcMonitor;
use crate::monitor_control::wmi::WmiDiscovery;
use crate::monitor_control::{
    place_of, shows, wmi_notes, BrightnessCommand, MonitorError, MonitorModel,
};
use crate::monitor_hardware::windows::{
    command_for, monitors_after_all, outcome_of, wmi_monitors, ApplyReport, BrightnessUpdate,
    MonitorController, RefreshResult,
};
use crate::text::views;

verus! {

/// What a worker is asked to do.
#[derive(Debug)]
pub enum MonitorCommand {
    /// Look for monitors.
    Refresh { request_id: u64 },
    /// Apply updates.
    Apply { request_id: u64, updates: Vec<BrightnessUpdate> },
    /// Apply updates, then look for monitors.
    ApplyThenRefresh { request_id: u64, updates: Vec<BrightnessUpdate> },
}

/// What a worker tells of its work.
#[derive(Debug)]
pub enum MonitorEvent {
    /// The work on a command has begun.
    Started { request_id: u64 },
    /// Monitors were looked for, after updates were applied where the command holds some.
    Refreshed {
        request_id: u64,
        apply_report: Option<ApplyReport>,
        result: Result<RefreshResult, String>,
    },
    /// Updates were applied.
    Applied { request_id: u64, report: ApplyReport },
}

/// A command that could not be handed to the worker, with the updates that it held.
#[derive(Debug)]
pub struct MonitorSendError {
    pub message: String,
    pub updates: Vec<BrightnessUpdate>,
}

impl MonitorCommand {
    /// The number of the request.
    pub open spec fn id(self) -> u64 {
        match self {
            MonitorCommand::Refresh { request_id } => request_id,
            MonitorCommand::Apply { request_id, .. } => request_id,
            MonitorCommand::ApplyThenRefresh { request_id, .. } => request_id,
        }
    }

    /// The updates that the command holds.
    pub open spec fn updates(self) -> Seq<BrightnessUpdate> {
        match self {
            MonitorCommand::Refresh { .. } => seq![],
            MonitorCommand::Apply { updates, .. } => updates@,
            MonitorCommand::ApplyThenRefresh { updates, .. } => updates@,
        }
    }

    /// Whether monitors are to be looked for.
    pub open spec fn refreshes(self) -> bool {
        !(self is Apply)
    }

    /// The number of the request.
    pub fn request_id(&self) -> (r: u64)
        ensures
            r == self.id(),
    {
        match self {
            MonitorCommand::Refresh { request_id } => *request_id,
            MonitorCommand::Apply { request_id, .. } => *request_id,
            MonitorCommand::ApplyThenRefresh { request_id, .. } => *request_id,
        }
    }

    /// Whether monitors are to be looked for.
    pub fn needs_refresh(&self) -> (r: bool)
        ensures
            r == self.refreshes(),
    {
        match self {
            MonitorCommand::Apply { .. } => false,
            _ => true,
        }
    }

    /// The updates that the command holds.
    pub fn into_updates(self) -> (r: Vec<BrightnessUpdate>)
        ensures
            r@ == self.updates(),
    {
        match self {
            MonitorCommand::Refresh { .. } => Vec::new(),
            MonitorCommand::Apply { updates, .. } => updates,
            MonitorCommand::ApplyThenRefresh { updates, .. } => updates,
        }
    }

    /// The error of a command that could not be handed to the worker. No update is lost.
    pub fn refused(self, message: String) -> (r: MonitorSendError)
        ensures
            r.message@ == message@,
            r.updates@ == self.updates(),
    {
        MonitorSendError { message, updates: self.into_updates() }
    }
}

impl MonitorEvent {
    /// The number of the request that the event is about.
    pub open spec fn id(self) -> u64 {
        match self {
            MonitorEvent::Started { request_id } => request_id,
            MonitorEvent::Refreshed { request_id, .. } => request_id,
            MonitorEvent::Applied { request_id, .. } => request_id,
        }
    }
}

/// What looking for monitors gave.
pub struct Discovery {
    pub ddc: Result<Vec<DdcMonitor>, MonitorError>,
    pub wmi: Result<WmiDiscovery, MonitorError>,
}

impl Discovery {
    /// The monitors that speak DDC/CI can be.
    pub open spec fn wf(self) -> bool {
        self.ddc matches Ok(found) ==> forall|i: int|
            0 <= i < found@.len() ==> (#[trigger] found@[i]).wf()
    }

    /// The monitors after they were looked for.
    pub open spec fn monitors(self, before: Seq<MonitorModel>) -> Seq<MonitorModel> {
        match self.ddc {
            Ok(found) => crate::monitor_control::ddc::models(found@) + wmi_monitors(self.wmi),
            Err(_) => before,
        }
    }

    /// Whether a result tells what looking for monitors gave.
    pub open spec fn told_by(self, result: Result<RefreshResult, String>) -> bool {
        match (self.ddc, result) {
            (Ok(_), Ok(found)) => {
                &&& shows(found.snapshots@, self.monitors(seq![]))
                &&& views(found.warnings@) == wmi_notes(self.wmi)
            },
            (Err(error), Err(text)) => text@ == error@.text(),
            _ => false,
        }
    }
}

/// Whether a report tells what came of updates.
pub open spec fn reports(
    report: ApplyReport,
    monitors: Seq<MonitorModel>,
    updates: Seq<BrightnessUpdate>,
    replies: Seq<Result<(), MonitorError>>,
) -> bool {
    report.outcomes@.len() == updates.len() && forall|i: int|
        0 <= i < updates.len() ==> (#[trigger] report.outcomes@[i])@ == outcome_of(
            monitors_after_all(monitors, updates.take(i), replies.take(i)),
            updates[i],
            replies[i],
        )
}

/// The worker: it carries out one command after the other.
pub struct MonitorWorker {
    controller: MonitorController,
}

impl View for MonitorWorker {
    type V = Seq<MonitorModel>;

    closed spec fn view(&self) -> Seq<MonitorModel> {
        self.controller@
    }
}

impl MonitorWorker {
    /// Every monitor can be.
    pub closed spec fn wf(self) -> bool {
        self.controller.wf()
    }

    /// A worker that knows no monitors yet.
    pub fn new() -> (r: Self)
        ensures
            r.wf(),
            r@ == Seq::<MonitorModel>::empty(),
    {
        MonitorWorker { controller: MonitorController::new() }
    }

    /// The event with which the work on a command begins.
    pub fn begin(&self, command: &MonitorCommand) -> (r: MonitorEvent)
        ensures
            r == (MonitorEvent::Started { request_id: command.id() }),
    {
        MonitorEvent::Started { request_id: command.request_id() }
    }

    /// Whether the request that an update makes necessary can be computed.
    pub fn can_apply(&self, update: &BrightnessUpdate) -> (r: bool)
        requires
            self.wf(),
        ensures
            r == (place_of(self@, update.id@) matches Some(i) ==> self@[i].can_set(
                update.value as int,
            )),
    {
        self.controller.can_apply(update)
    }

    /// The request that an update makes necessary.
    pub fn request(&self, update: &BrightnessUpdate) -> (r: Option<BrightnessCommand>)
        requires
            self.wf(),
            place_of(self@, update.id@) matches Some(i) ==> self@[i].can_set(update.value as int),
        ensures
            match r {
                Some(request) => command_for(self@, *update) == Some(request@),
                None => command_for(self@, *update) is None,
            },
    {
        self.controller.command(update)
    }

    /// The event with which the work on a command ends. The replies are the answers to the
    /// requests that the updates make necessary, one for each update; the discovery is what
    /// looking for monitors gave, where the command asks for that.
    pub fn complete(
        &mut self,
        command: MonitorCommand,
        replies: Vec<Result<(), MonitorError>>,
        discovery: Option<Discovery>,
    ) -> (r: MonitorEvent)
        requires
            old(self).wf(),
            replies@.len() == command.updates().len(),
            discovery is Some == command.refreshes(),
            discovery matches Some(found) ==> found.wf(),
        ensures
            final(self).wf(),
            r.id() == command.id(),
            ({
                let applied = monitors_after_all(old(self)@, command.updates(), replies@);
                match (command, r) {
                    (MonitorCommand::Refresh { .. }, MonitorEvent::Refreshed {
                        apply_report,
                        result,
                        ..
                    }) => {
                        &&& apply_report is None
                        &&& discovery->0.told_by(result)
                        &&& final(self)@ == discovery->0.monitors(old(self)@)
                    },
                    (MonitorCommand::Apply { updates, .. }, MonitorEvent::Applied {
                        report,
                        ..
                    }) => {
                        &&& reports(report, old(self)@, updates@, replies@)
                        &&& final(self)@ == applied
                    },
                    (MonitorCommand::ApplyThenRefresh { updates, .. }, MonitorEvent::Refreshed {
                        apply_report,
                        result,
                        ..
                    }) => {
                        &&& apply_report matches Some(report) && reports(
                            report,
                            old(self)@,
                            updates@,
                            replies@,
                        )
                        &&& discovery->0.told_by(result)
                        &&& final(self)@ == discovery->0.monitors(applied)
                    },
                    _ => false,
                }
            }),
    {
        match command {
            MonitorCommand::Refresh { request_id } => {
                let result = self.refresh(discovery.unwrap());
                MonitorEvent::Refreshed { request_id, apply_report: None, result }
            },
            MonitorCommand::Apply { request_id, updates } => {
                let report = self.controller.apply(updates, replies);
                MonitorEvent::Applied { request_id, report }
            },
            MonitorCommand::ApplyThenRefresh { request_id, updates } => {
                let report = self.controller.apply(updates, replies);
                let result = self.refresh(discovery.unwrap());
                MonitorEvent::Refreshed { request_id, apply_report: Some(report), result }
            },
        }
    }

    /// Takes over the monitors that were found.
    fn refresh(&mut self, discovery: Discovery) -> (r: Result<RefreshResult, String>)
        requires
            old(self).wf(),
            discovery.wf(),
        ensures
            final(self).wf(),
            discovery.told_by(r),
            final(self)@ == discovery.monitors(old(self)@),
    {
        match self.controller.refresh(discovery.ddc, discovery.wmi) {
            Ok(result) => Ok(result),
            Err(error) => Err(error.to_string()),
        }
    }
}

} // verus!

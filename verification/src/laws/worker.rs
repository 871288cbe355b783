//! The commands of the worker and what it answers.
use vstd::prelude::*;

use crate::monitor_control::display_config::{gdi_name, ActiveDisplayPaths};
use crate::monitor_control::{MonitorError, MonitorModel};
use crate::monitor_hardware::windows::{
    monitors_after_all, outcome_of, wmi_monitors, ApplyReport, BrightnessUpdate, RefreshResult,
};
use crate::monitor_worker::{reports, Discovery, MonitorCommand, MonitorEvent};
use crate::text::views;

verus! {

/// What a command holds: its number, its updates, and whether monitors are to be looked for.
pub proof fn contents_of_a_command(request_id: u64, updates: Vec<BrightnessUpdate>)
    ensures
        (MonitorCommand::Refresh { request_id }).id() == request_id,
        (MonitorCommand::Refresh { request_id }).updates().len() == 0,
        (MonitorCommand::Refresh { request_id }).refreshes(),
        (MonitorCommand::Apply { request_id, updates }).id() == request_id,
        (MonitorCommand::Apply { request_id, updates }).updates() == updates@,
        !(MonitorCommand::Apply { request_id, updates }).refreshes(),
        (MonitorCommand::ApplyThenRefresh { request_id, updates }).id() == request_id,
        (MonitorCommand::ApplyThenRefresh { request_id, updates }).updates() == updates@,
        (MonitorCommand::ApplyThenRefresh { request_id, updates }).refreshes(),
{
}

/// The number of an event is the one that it holds.
pub proof fn number_of_an_event(
    request_id: u64,
    apply_report: Option<ApplyReport>,
    result: Result<RefreshResult, String>,
    report: ApplyReport,
)
    ensures
        (MonitorEvent::Started { request_id }).id() == request_id,
        (MonitorEvent::Refreshed { request_id, apply_report, result }).id() == request_id,
        (MonitorEvent::Applied { request_id, report }).id() == request_id,
{
}

/// The monitors after a refresh: those that speak DDC/CI, then those of WMI, where the former could
/// be looked for, and else those that were known before.
pub proof fn monitors_after_a_refresh(discovery: Discovery, before: Seq<MonitorModel>, i: int)
    ensures
        discovery.ddc is Err ==> discovery.monitors(before) == before,
        discovery.ddc matches Ok(found) ==> {
            let second = match discovery.wmi {
                Ok(others) => others.monitors@.len(),
                Err(_) => 0,
            };
            let all = discovery.monitors(before);
            &&& all.len() == found@.len() + second
            &&& 0 <= i < found@.len() ==> all[i] == found@[i]@
            &&& 0 <= i < second ==> all[found@.len() + i] == discovery.wmi->Ok_0.monitors@[i]@
        },
        wmi_monitors(discovery.wmi).len() == match discovery.wmi {
            Ok(others) => others.monitors@.len(),
            Err(_) => 0,
        },
{
}

/// The result of a refresh tells each monitor that was found, what WMI warned of, and that WMI
/// failed where it did; or the error by which the refresh failed.
pub proof fn result_of_a_refresh(
    discovery: Discovery,
    result: Result<RefreshResult, String>,
    i: int,
)
    requires
        discovery.told_by(result),
    ensures
        result is Ok <==> discovery.ddc is Ok,
        discovery.ddc matches Err(error) ==> result->Err_0@ == error@.text(),
        result matches Ok(found) ==> {
            let all = discovery.monitors(seq![]);
            &&& found.snapshots@.len() == all.len()
            &&& 0 <= i < all.len() ==> {
                &&& found.snapshots@[i].id@ == all[i].id
                &&& found.snapshots@[i].name@ == all[i].name
                &&& found.snapshots@[i].brightness == all[i].brightness
            }
            &&& views(found.warnings@) == match discovery.wmi {
                Ok(others) => views(others.warnings@),
                Err(error) => seq!["failed to refresh WMI monitors: "@ + error@.text()],
            }
        },
{
}

/// A report tells of each update, in order, what came of it after those before it.
pub proof fn report_tells_of_every_update(
    report: ApplyReport,
    monitors: Seq<MonitorModel>,
    updates: Seq<BrightnessUpdate>,
    replies: Seq<Result<(), MonitorError>>,
    i: int,
)
    requires
        reports(report, monitors, updates, replies),
        0 <= i < updates.len(),
    ensures
        report.outcomes@.len() == updates.len(),
        report.outcomes@[i]@ == outcome_of(
            monitors_after_all(monitors, updates.take(i), replies.take(i)),
            updates[i],
            replies[i],
        ),
        report.outcomes@[i].id@ == updates[i].id@,
        0 <= updates[i].value <= 100 ==> report.outcomes@[i].requested == updates[i].value,
{
    assert(report.outcomes@[i]@ == outcome_of(
        monitors_after_all(monitors, updates.take(i), replies.take(i)),
        updates[i],
        replies[i],
    ));
}

/// The targets of a display do not depend on how its name is spelled.
pub proof fn targets_of_a_display(paths: ActiveDisplayPaths, name: Seq<char>, other: Seq<char>)
    requires
        gdi_name(name) == gdi_name(other),
    ensures
        paths.targets(name) == paths.targets(other),
        paths.targets(name) == paths.listed(gdi_name(name)),
{
}

} // verus!

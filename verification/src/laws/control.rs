//! Controllers: which monitor an update reaches, what comes of it, and what a refresh takes over.
use vstd::prelude::*;

use crate::monitor_control::ddc::DdcDiscovery;
use crate::monitor_control::display_config::ActiveDisplayPaths;
use crate::monitor_control::wmi::{wmi_reply_error, WmiDiscovery, WmiReply};
use crate::monitor_control::{
    ddc_notes, distinct_ids, duplicate_warnings, first_of_each, found_monitors,
    holds_id, lemma_first_of_each, lemma_place_of, next_generation, path_notes, place_of, shows,
    wmi_notes, BrightnessUpdate, ControllerModel, ErrorModel, MonitorError, MonitorModel,
    MonitorSnapshot,
};
use crate::monitor_hardware::windows;
use crate::text::{decimal, views};

verus! {

/// The place of an id is the only one with it where no two monitors have the same.
pub proof fn lemma_only_place(monitors: Seq<MonitorModel>, id: Seq<char>, i: int)
    requires
        0 <= i < monitors.len(),
        monitors[i].id == id,
        forall|k: int| 0 <= k < i ==> (#[trigger] monitors[k]).id != id,
    ensures
        place_of(monitors, id) == Some(i),
{
    lemma_place_of(monitors, id);
    if place_of(monitors, id) is None {
        assert(holds_id(monitors, id));
    } else {
        let k = place_of(monitors, id)->0;
        if k < i {
            assert(monitors[k].id != id);
        }
    }
}

/// An update of the current generation reaches the monitor that it names, and no other. The request
/// is that monitor's own. Where the monitor takes it, its brightness is the percentage asked for;
/// where not, all stays as it was.
pub proof fn update_reaches_the_monitor_that_it_names(
    controller: ControllerModel,
    update: BrightnessUpdate,
    reply: Result<(), MonitorError>,
    i: int,
)
    requires
        distinct_ids(controller.monitors),
        update.generation == controller.generation,
        0 <= i < controller.monitors.len(),
        controller.monitors[i].id == update.id@,
    ensures
        ({
            let later = controller.after(update, reply);
            let outcome = controller.outcome(update, reply);
            &&& controller.command(update) == Some(
                controller.monitors[i].command(update.value as int),
            )
            &&& later.generation == controller.generation
            &&& later.monitors.len() == controller.monitors.len()
            &&& forall|k: int|
                0 <= k < controller.monitors.len() && k != i ==> #[trigger] later.monitors[k]
                    == controller.monitors[k]
            &&& later.monitors[i].id == controller.monitors[i].id
            &&& later.monitors[i].name == controller.monitors[i].name
            &&& later.monitors[i].device == controller.monitors[i].device
            &&& reply is Ok && 0 <= update.value <= 100 ==> later.monitors[i].brightness
                == update.value
            &&& reply is Ok && update.value < 0 ==> later.monitors[i].brightness == 0
            &&& reply is Ok && update.value > 100 ==> later.monitors[i].brightness == 100
            &&& reply is Err ==> later.monitors[i] == controller.monitors[i]
            &&& outcome.effective == Some(later.monitors[i].brightness)
            &&& outcome.error is None <==> reply is Ok
            &&& reply matches Err(error) ==> outcome.error == Some(error@.text())
        }),
{
    assert forall|k: int| 0 <= k < i implies (#[trigger] controller.monitors[k]).id
        != update.id@ by {
        assert(controller.monitors[k].id != controller.monitors[i].id);
    }
    lemma_only_place(controller.monitors, update.id@, i);
}

/// An outcome is about its update: the same monitor, the same generation, the same percentage.
pub proof fn outcome_tells_its_update(
    controller: ControllerModel,
    update: BrightnessUpdate,
    reply: Result<(), MonitorError>,
)
    ensures
        ({
            let outcome = controller.outcome(update, reply);
            &&& outcome.id == update.id@
            &&& outcome.generation == update.generation
            &&& 0 <= outcome.requested <= 100
            &&& 0 <= update.value <= 100 ==> outcome.requested == update.value
            &&& update.value < 0 ==> outcome.requested == 0
            &&& update.value > 100 ==> outcome.requested == 100
            &&& outcome.effective is None <==> controller.command(update) is None
            &&& outcome.error is None ==> outcome.effective == Some(outcome.requested)
        }),
{
}

/// An update for another list of monitors, or for a monitor that is not on the list, makes no
/// request, changes nothing, and says so.
pub proof fn refused_update_says_why(
    controller: ControllerModel,
    update: BrightnessUpdate,
    reply: Result<(), MonitorError>,
)
    requires
        update.generation != controller.generation || forall|i: int|
            0 <= i < controller.monitors.len() ==> (#[trigger] controller.monitors[i]).id
                != update.id@,
    ensures
        controller.command(update) is None,
        controller.after(update, reply) == controller,
        controller.outcome(update, reply).effective is None,
        controller.outcome(update, reply).error == Some(
            if update.generation != controller.generation {
                "stale monitor generation "@ + decimal(update.generation as nat)
                    + "; current generation is "@ + decimal(controller.generation as nat)
            } else {
                "unknown monitor id "@ + update.id@
            },
        ),
{
    lemma_place_of(controller.monitors, update.id@);
}

/// Updates are dealt with one by one, in their order.
pub proof fn updates_are_dealt_with_in_order(
    controller: ControllerModel,
    updates: Seq<BrightnessUpdate>,
    replies: Seq<Result<(), MonitorError>>,
    update: BrightnessUpdate,
    reply: Result<(), MonitorError>,
)
    requires
        updates.len() == replies.len(),
    ensures
        controller.after_all(seq![], seq![]) == controller,
        controller.after_all(updates.push(update), replies.push(reply)) == controller.after_all(
            updates,
            replies,
        ).after(update, reply),
{
    assert(updates.push(update).drop_last() =~= updates);
    lemma_later_replies(controller, updates, replies, reply);
}

/// A reply to a later update is of no account.
proof fn lemma_later_replies(
    controller: ControllerModel,
    updates: Seq<BrightnessUpdate>,
    replies: Seq<Result<(), MonitorError>>,
    reply: Result<(), MonitorError>,
)
    requires
        updates.len() <= replies.len(),
    ensures
        controller.after_all(updates, replies.push(reply)) == controller.after_all(
            updates,
            replies,
        ),
    decreases updates.len(),
{
    if updates.len() > 0 {
        lemma_later_replies(controller, updates.drop_last(), replies, reply);
    }
}

/// The generation after so many refreshes.
pub open spec fn generation_after(generation: u64, refreshes: nat) -> u64
    decreases refreshes,
{
    if refreshes == 0 {
        generation
    } else {
        next_generation(generation_after(generation, (refreshes - 1) as nat))
    }
}

/// Generations count up and start again at one.
proof fn lemma_generation(generation: u64, refreshes: nat)
    ensures
        generation > 0 ==> generation_after(generation, refreshes) == (generation - 1 + refreshes)
            % (u64::MAX as int) + 1,
        generation == 0 && refreshes > 0 ==> generation_after(generation, refreshes) == (refreshes
            - 1) % (u64::MAX as int) + 1,
    decreases refreshes,
{
    if refreshes > 0 {
        assert(generation_after(generation, 0) == generation);
        lemma_generation(generation, (refreshes - 1) as nat);
    }
}

/// The lists of monitors that so many refreshes of a controller give all have different
/// generations, and none of them is zero.
pub proof fn generations_differ(generation: u64, earlier: nat, later: nat)
    requires
        earlier < later < earlier + u64::MAX,
    ensures
        generation_after(generation, later) > 0,
        generation_after(generation, earlier) != generation_after(generation, later),
{
    lemma_generation(generation, earlier);
    lemma_generation(generation, later);
}

/// The first refresh of a controller that has never looked for monitors has the generation one, and
/// each one after it the number that follows.
pub proof fn generations_count_refreshes(refreshes: nat)
    requires
        refreshes <= u64::MAX,
    ensures
        generation_after(0, refreshes) == refreshes,
{
    lemma_generation(0, refreshes);
}

/// An update for any earlier list of monitors is refused, however many refreshes ago it was made,
/// and whether or not a monitor with its id is still there.
pub proof fn updates_for_earlier_lists_are_refused(
    earlier: ControllerModel,
    later: ControllerModel,
    refreshes: nat,
    update: BrightnessUpdate,
    reply: Result<(), MonitorError>,
)
    requires
        0 < refreshes < u64::MAX,
        later.generation == generation_after(earlier.generation, refreshes),
        update.generation == earlier.generation,
    ensures
        later.command(update) is None,
        later.after(update, reply) == later,
        later.outcome(update, reply).effective is None,
        later.outcome(update, reply).error == Some(
            "stale monitor generation "@ + decimal(update.generation as nat)
                + "; current generation is "@ + decimal(later.generation as nat),
        ),
{
    generations_differ(earlier.generation, 0, refreshes);
    assert(generation_after(earlier.generation, 0) == earlier.generation);
    refused_update_says_why(later, update, reply);
}

/// Of the monitors that were found, the first one of each id is kept, in the order in which they
/// were found.
pub proof fn first_monitor_of_each_id_is_kept(monitors: Seq<MonitorModel>, id: Seq<char>)
    ensures
        place_of(monitors, id) is Some <==> place_of(first_of_each(monitors), id) is Some,
        place_of(monitors, id) matches Some(i) ==> first_of_each(
            monitors,
        )[place_of(first_of_each(monitors), id)->0] == monitors[i],
        distinct_ids(first_of_each(monitors)),
    decreases monitors.len(),
{
    lemma_first_of_each(monitors);
    lemma_place_of(monitors, id);
    lemma_place_of(first_of_each(monitors), id);
    if monitors.len() > 0 {
        let earlier = monitors.drop_last();
        let last = monitors.last();
        let kept = first_of_each(earlier);
        let all = first_of_each(monitors);
        first_monitor_of_each_id_is_kept(earlier, id);
        lemma_place_of(earlier, id);
        lemma_place_of(kept, id);
        match place_of(earlier, id) {
            Some(i) => {
                assert forall|k: int| 0 <= k < i implies (#[trigger] monitors[k]).id != id by {
                    assert(earlier[k].id != id);
                }
                assert(monitors[i] == earlier[i]);
                lemma_only_place(monitors, id, i);
                let j = place_of(kept, id)->0;
                assert(all[j] == kept[j]);
                assert forall|k: int| 0 <= k < j implies (#[trigger] all[k]).id != id by {
                    assert(all[k] == kept[k]);
                }
                lemma_only_place(all, id, j);
            },
            None => {
                if last.id == id {
                    let i = monitors.len() - 1;
                    assert forall|k: int| 0 <= k < i implies (#[trigger] monitors[k]).id != id by {
                        if earlier[k].id == id {
                            assert(holds_id(earlier, id));
                        }
                    }
                    lemma_only_place(monitors, id, i);
                    assert(!holds_id(earlier, id));
                    assert(all == kept.push(last));
                    let j = kept.len() as int;
                    assert forall|k: int| 0 <= k < j implies (#[trigger] all[k]).id != id by {
                        assert(all[k] == kept[k]);
                        if kept[k].id == id {
                            assert(holds_id(kept, id));
                        }
                    }
                    lemma_only_place(all, id, j);
                } else {
                    if holds_id(monitors, id) {
                        let k = choose|k: int|
                            0 <= k < monitors.len() && (#[trigger] monitors[k]).id == id;
                        assert(earlier[k].id == id);
                        assert(holds_id(earlier, id));
                    }
                }
            },
        }
    }
}

/// The order of the monitors that are kept is that in which they were found.
pub proof fn kept_monitors_keep_their_order(monitors: Seq<MonitorModel>, i: int, j: int)
    requires
        0 <= i < j < first_of_each(monitors).len(),
    ensures
        place_of(monitors, first_of_each(monitors)[i].id) matches Some(a) && place_of(
            monitors,
            first_of_each(monitors)[j].id,
        ) matches Some(b) && a < b,
    decreases monitors.len(),
{
    let all = first_of_each(monitors);
    let earlier = monitors.drop_last();
    let last = monitors.last();
    let kept = first_of_each(earlier);
    lemma_first_of_each(monitors);
    lemma_first_of_each(earlier);
    if j < kept.len() {
        kept_monitors_keep_their_order(earlier, i, j);
        lemma_place_in_longer_list(earlier, last, kept[i].id);
        lemma_place_in_longer_list(earlier, last, kept[j].id);
        assert(monitors =~= earlier.push(last));
        assert(all[i] == kept[i] && all[j] == kept[j]);
    } else {
        assert(!holds_id(earlier, last.id));
        assert(all == kept.push(last));
        assert(kept[i] == all[i]);
        assert(holds_id(kept, kept[i].id));
        assert(holds_id(earlier, kept[i].id));
        lemma_place_of(earlier, kept[i].id);
        lemma_place_in_longer_list(earlier, last, kept[i].id);
        assert(monitors =~= earlier.push(last));
        assert forall|k: int| 0 <= k < earlier.len() implies (#[trigger] monitors[k]).id
            != last.id by {
            if earlier[k].id == last.id {
                assert(holds_id(earlier, last.id));
            }
        }
        lemma_only_place(monitors, last.id, monitors.len() - 1);
    }
}

/// A place stays where it is when the list grows.
proof fn lemma_place_in_longer_list(
    monitors: Seq<MonitorModel>,
    last: MonitorModel,
    id: Seq<char>,
)
    ensures
        place_of(monitors, id) matches Some(i) ==> place_of(monitors.push(last), id) == Some(i),
{
    lemma_place_of(monitors, id);
    match place_of(monitors, id) {
        Some(i) => {
            let longer = monitors.push(last);
            assert(longer[i] == monitors[i]);
            assert forall|k: int| 0 <= k < i implies (#[trigger] longer[k]).id != id by {
                assert(longer[k] == monitors[k]);
            }
            lemma_only_place(longer, id, i);
        },
        None => {},
    }
}

/// Every monitor that was found is kept or warned of, and a warning names the monitor.
pub proof fn every_monitor_is_kept_or_warned_of(monitors: Seq<MonitorModel>, last: MonitorModel)
    ensures
        first_of_each(monitors).len() + duplicate_warnings(monitors).len() == monitors.len(),
        duplicate_warnings(monitors.push(last)) == if exists|k: int|
            0 <= k < monitors.len() && (#[trigger] monitors[k]).id == last.id {
            duplicate_warnings(monitors).push(
                "ignored duplicate monitor id "@ + last.id + " ("@ + last.name + ")"@,
            )
        } else {
            duplicate_warnings(monitors)
        },
    decreases monitors.len(),
{
    assert(monitors.push(last).drop_last() =~= monitors);
    if monitors.len() > 0 {
        every_monitor_is_kept_or_warned_of(monitors.drop_last(), last);
    }
}

/// The monitors that speak DDC/CI come first, in their order, then those of WMI, in theirs. A kind
/// of monitor that could not be looked for gives none.
pub proof fn ddc_monitors_come_first(
    ddc: Result<DdcDiscovery, MonitorError>,
    wmi: Result<WmiDiscovery, MonitorError>,
    i: int,
)
    ensures
        ({
            let first = match ddc {
                Ok(discovery) => discovery.monitors@.len(),
                Err(_) => 0,
            };
            let second = match wmi {
                Ok(discovery) => discovery.monitors@.len(),
                Err(_) => 0,
            };
            &&& found_monitors(ddc, wmi).len() == first + second
            &&& 0 <= i < first ==> found_monitors(ddc, wmi)[i] == ddc->Ok_0.monitors@[i]@
            &&& 0 <= i < second ==> found_monitors(ddc, wmi)[first + i] == wmi->Ok_0.monitors@[i]@
        }),
{
}

/// A refresh passes on what each of its parts warns of, and tells of each part that failed.
pub proof fn warnings_are_passed_on(
    paths: Result<ActiveDisplayPaths, MonitorError>,
    ddc: Result<DdcDiscovery, MonitorError>,
    wmi: Result<WmiDiscovery, MonitorError>,
)
    ensures
        path_notes(paths) == match paths {
            Ok(found) => found.warning_texts(),
            Err(error) => seq!["failed to query active display paths: "@ + error@.text()],
        },
        ddc_notes(ddc) == match ddc {
            Ok(discovery) => views(discovery.warnings@),
            Err(error) => seq!["failed to refresh DDC monitors: "@ + error@.text()],
        },
        wmi_notes(wmi) == match wmi {
            Ok(discovery) => views(discovery.warnings@),
            Err(error) => seq!["failed to refresh WMI monitors: "@ + error@.text()],
        },
{
}

/// The snapshots of monitors show each of them, in their order, with its id, name and brightness.
pub proof fn snapshots_show_every_monitor(
    snapshots: Seq<MonitorSnapshot>,
    monitors: Seq<MonitorModel>,
    i: int,
)
    requires
        shows(snapshots, monitors),
    ensures
        snapshots.len() == monitors.len(),
        0 <= i < monitors.len() ==> snapshots[i].id@ == monitors[i].id && snapshots[i].name@
            == monitors[i].name && snapshots[i].brightness == monitors[i].brightness,
{
}

/// What the messages of errors say.
pub proof fn error_messages(error: ErrorModel)
    ensures
        error.text() == match error {
            ErrorModel::Win32 { context, code } => context + " (win32 error "@ + decimal(
                code as nat,
            ) + ")"@,
            ErrorModel::Wmi { context, details } => context + ": "@ + details,
            ErrorModel::InvalidData { context, details } => context + ": "@ + details,
            ErrorModel::StaleGeneration { requested, current } => "stale monitor generation "@
                + decimal(requested as nat) + "; current generation is "@ + decimal(current as nat),
            ErrorModel::UnknownMonitor(id) => "unknown monitor id "@ + id,
        },
{
}

/// Setting a monitor by WMI works exactly where the call could be made and returned zero.
pub proof fn wmi_call_works_where_it_returns_zero(reply: WmiReply)
    ensures
        wmi_reply_error(reply) is None <==> reply == WmiReply::Returned(0),
        reply matches WmiReply::Returned(value) && value != 0 ==> wmi_reply_error(reply) == Some(
            ErrorModel::Win32 { context: "WmiSetBrightness failed"@, code: reply->Returned_0 },
        ),
        reply matches WmiReply::NotConnected(details) ==> wmi_reply_error(reply) == Some(
            ErrorModel::Wmi { context: "WMI connection failed"@, details: details@ },
        ),
        reply matches WmiReply::CallFailed(details) ==> wmi_reply_error(reply) == Some(
            ErrorModel::Wmi { context: "WmiSetBrightness failed"@, details: details@ },
        ),
{
}

/// Without generations too, an update reaches the first monitor with its id, and no other.
pub proof fn plain_update_reaches_the_monitor_that_it_names(
    monitors: Seq<MonitorModel>,
    update: windows::BrightnessUpdate,
    reply: Result<(), MonitorError>,
    i: int,
)
    requires
        0 <= i < monitors.len(),
        monitors[i].id == update.id@,
        forall|k: int| 0 <= k < i ==> (#[trigger] monitors[k]).id != update.id@,
    ensures
        ({
            let later = windows::monitors_after(monitors, update, reply);
            let outcome = windows::outcome_of(monitors, update, reply);
            &&& windows::command_for(monitors, update) == Some(
                monitors[i].command(update.value as int),
            )
            &&& later.len() == monitors.len()
            &&& forall|k: int|
                0 <= k < monitors.len() && k != i ==> #[trigger] later[k] == monitors[k]
            &&& later[i].id == monitors[i].id
            &&& later[i].name == monitors[i].name
            &&& later[i].device == monitors[i].device
            &&& reply is Ok && 0 <= update.value <= 100 ==> later[i].brightness == update.value
            &&& reply is Ok && update.value < 0 ==> later[i].brightness == 0
            &&& reply is Ok && update.value > 100 ==> later[i].brightness == 100
            &&& reply is Err ==> later[i] == monitors[i]
            &&& outcome.id == update.id@
            &&& 0 <= update.value <= 100 ==> outcome.requested == update.value
            &&& 0 <= outcome.requested <= 100
            &&& outcome.effective == Some(later[i].brightness)
            &&& outcome.error is None <==> reply is Ok
            &&& reply matches Err(error) ==> outcome.error == Some(error@.text())
        }),
{
    lemma_only_place(monitors, update.id@, i);
}

/// Without generations too, updates are dealt with one by one, in their order.
pub proof fn plain_updates_are_dealt_with_in_order(
    monitors: Seq<MonitorModel>,
    updates: Seq<windows::BrightnessUpdate>,
    replies: Seq<Result<(), MonitorError>>,
    update: windows::BrightnessUpdate,
    reply: Result<(), MonitorError>,
)
    requires
        updates.len() == replies.len(),
    ensures
        windows::monitors_after_all(monitors, seq![], seq![]) == monitors,
        windows::monitors_after_all(monitors, updates.push(update), replies.push(reply))
            == windows::monitors_after(
            windows::monitors_after_all(monitors, updates, replies),
            update,
            reply,
        ),
{
    assert(updates.push(update).drop_last() =~= updates);
    assert(replies.push(reply).take(updates.len() as int) =~= replies);
}

/// An update for a monitor that is not known is answered with its own percentage and the id.
pub proof fn plain_update_for_an_unknown_monitor_says_so(
    monitors: Seq<MonitorModel>,
    update: windows::BrightnessUpdate,
    reply: Result<(), MonitorError>,
)
    requires
        forall|i: int| 0 <= i < monitors.len() ==> (#[trigger] monitors[i]).id != update.id@,
    ensures
        windows::command_for(monitors, update) is None,
        windows::monitors_after(monitors, update, reply) == monitors,
        windows::outcome_of(monitors, update, reply).id == update.id@,
        windows::outcome_of(monitors, update, reply).effective is None,
        windows::outcome_of(monitors, update, reply).error == Some(
            "unknown monitor id "@ + update.id@,
        ),
        0 <= update.value <= 100 ==> windows::outcome_of(monitors, update, reply).requested
            == update.value,
{
    lemma_place_of(monitors, update.id@);
}

} // verus!

//! Finding monitors and setting their brightness, where every update is for the monitors that
//! are known now.
use vstd::prelude::*;

use crate::monitor_control::ddc::DdcMonitor;
use crate::monitor_control::wmi::{lemma_wmi_device, WmiDiscovery};
use crate::monitor_control::{
    clamp_percent, find_monitor, lemma_place_of, lemma_place_of_ids, models, monitor_model,
    percent_of, place_of, same_but_brightness, shows, snapshots_of, wmi_failure, wmi_notes,
    BrightnessCommand, CommandModel, ErrorModel, Monitor, MonitorError, MonitorId, MonitorModel,
    MonitorSnapshot,
};
use crate::text::{concat, views};

verus! {

/// A request to set a monitor to a brightness.
#[derive(Debug)]
pub struct BrightnessUpdate {
    pub id: MonitorId,
    pub value: i32,
}

/// What came of an update.
#[derive(Debug)]
pub struct ApplyOutcome {
    pub id: MonitorId,
    /// The percentage that was asked for.
    pub requested: i32,
    /// The brightness afterwards, where the monitor is known.
    pub effective: Option<i32>,
    /// What went wrong.
    pub error: Option<String>,
}

/// What came of a list of updates.
#[derive(Debug)]
pub struct ApplyReport {
    pub outcomes: Vec<ApplyOutcome>,
}

/// The monitors that were found.
#[derive(Debug)]
pub struct RefreshResult {
    pub snapshots: Vec<MonitorSnapshot>,
    pub warnings: Vec<String>,
}

/// What came of an update.
pub struct OutcomeModel {
    pub id: Seq<char>,
    pub requested: i32,
    pub effective: Option<i32>,
    pub error: Option<Seq<char>>,
}

impl View for ApplyOutcome {
    type V = OutcomeModel;

    open spec fn view(&self) -> OutcomeModel {
        OutcomeModel {
            id: self.id@,
            requested: self.requested,
            effective: self.effective,
            error: match self.error {
                Some(message) => Some(message@),
                None => None,
            },
        }
    }
}

/// The request that an update makes necessary, with the given monitors.
pub open spec fn command_for(monitors: Seq<MonitorModel>, update: BrightnessUpdate) -> Option<
    CommandModel,
> {
    match place_of(monitors, update.id@) {
        Some(i) => Some(monitors[i].command(update.value as int)),
        None => None,
    }
}

/// What comes of an update: one for an unknown monitor is refused, every other ends as the
/// monitor's answer to the request says.
pub open spec fn outcome_of(
    monitors: Seq<MonitorModel>,
    update: BrightnessUpdate,
    reply: Result<(), MonitorError>,
) -> OutcomeModel {
    let requested = clamp_percent(update.value as int) as i32;
    match place_of(monitors, update.id@) {
        None => OutcomeModel {
            id: update.id@,
            requested,
            effective: None,
            error: Some(ErrorModel::UnknownMonitor(update.id@).text()),
        },
        Some(i) => match reply {
            Ok(()) => OutcomeModel {
                id: update.id@,
                requested,
                effective: Some(requested),
                error: None,
            },
            Err(error) => OutcomeModel {
                id: update.id@,
                requested,
                effective: Some(monitors[i].brightness),
                error: Some(error@.text()),
            },
        },
    }
}

/// The monitors after an update.
pub open spec fn monitors_after(
    monitors: Seq<MonitorModel>,
    update: BrightnessUpdate,
    reply: Result<(), MonitorError>,
) -> Seq<MonitorModel> {
    match (place_of(monitors, update.id@), reply) {
        (Some(i), Ok(())) => monitors.update(
            i,
            monitors[i].with_brightness(clamp_percent(update.value as int) as i32),
        ),
        _ => monitors,
    }
}

/// The monitors after a list of updates.
pub open spec fn monitors_after_all(
    monitors: Seq<MonitorModel>,
    updates: Seq<BrightnessUpdate>,
    replies: Seq<Result<(), MonitorError>>,
) -> Seq<MonitorModel>
    decreases updates.len(),
{
    if updates.len() == 0 {
        monitors
    } else {
        let last = updates.len() - 1;
        monitors_after(
            monitors_after_all(monitors, updates.drop_last(), replies.take(last)),
            updates[last],
            replies[last],
        )
    }
}

/// The WMI monitors in an answer, none where there is no answer.
pub open spec fn wmi_monitors(answer: Result<WmiDiscovery, MonitorError>) -> Seq<MonitorModel> {
    match answer {
        Ok(discovery) => crate::monitor_control::wmi::models(discovery.monitors@),
        Err(_) => seq![],
    }
}

/// Finds monitors and sets their brightness.
pub struct MonitorController {
    monitors: Vec<Monitor>,
}

impl View for MonitorController {
    type V = Seq<MonitorModel>;

    closed spec fn view(&self) -> Seq<MonitorModel> {
        models(self.monitors@)
    }
}

impl MonitorController {
    /// Every monitor can be.
    pub open spec fn wf(self) -> bool {
        forall|i: int| 0 <= i < self@.len() ==> monitor_model(#[trigger] self@[i])
    }

    /// A controller that has not looked for monitors yet.
    pub fn new() -> (r: Self)
        ensures
            r.wf(),
            r@ == Seq::<MonitorModel>::empty(),
    {
        let r = MonitorController { monitors: Vec::new() };
        assert(models(r.monitors@) =~= seq![]);
        r
    }

    /// Takes over the monitors that were found, those that speak DDC/CI first. Where these could
    /// not be looked for, the controller stays as it is and the answer of WMI is not looked at.
    pub fn refresh(
        &mut self,
        ddc: Result<Vec<DdcMonitor>, MonitorError>,
        wmi: Result<WmiDiscovery, MonitorError>,
    ) -> (r: Result<RefreshResult, MonitorError>)
        requires
            old(self).wf(),
            ddc matches Ok(found) ==> forall|i: int|
                0 <= i < found@.len() ==> (#[trigger] found@[i]).wf(),
        ensures
            final(self).wf(),
            match ddc {
                Err(error) => {
                    &&& r == Err::<RefreshResult, MonitorError>(error)
                    &&& *final(self) == *old(self)
                },
                Ok(found) => {
                    &&& final(self)@ == crate::monitor_control::ddc::models(found@) + wmi_monitors(
                        wmi,
                    )
                    &&& r matches Ok(result) && {
                        &&& shows(result.snapshots@, final(self)@)
                        &&& views(result.warnings@) == wmi_notes(wmi)
                    }
                },
            },
    {
        let found = match ddc {
            Ok(found) => found,
            Err(error) => {
                return Err(error);
            },
        };
        let ghost ddc_models = crate::monitor_control::ddc::models(found@);
        let mut monitors: Vec<Monitor> = Vec::new();
        assert(models(monitors@) =~= ddc_models.take(0));
        for monitor in it: found
            invariant
                it.seq() == found@,
                ddc_models == crate::monitor_control::ddc::models(found@),
                forall|i: int| 0 <= i < found@.len() ==> (#[trigger] found@[i]).wf(),
                models(monitors@) == ddc_models.take(it.index() as int),
                forall|i: int| 0 <= i < monitors@.len() ==> monitor_model((#[trigger] monitors@[i])@),
        {
            let ghost index = it.index() as int;
            let ghost earlier = models(monitors@);
            assert(found@[index].wf());
            let boxed = Monitor::Ddc(Box::new(monitor));
            assert(boxed@ == ddc_models[index]);
            assert(models(monitors@.push(boxed)) =~= earlier.push(boxed@));
            monitors.push(boxed);
            assert(models(monitors@) =~= ddc_models.take(index + 1));
        }
        assert(models(monitors@) =~= ddc_models);
        let mut warnings: Vec<String> = Vec::new();
        match wmi {
            Ok(discovery) => {
                let ghost wmi_models = crate::monitor_control::wmi::models(discovery.monitors@);
                warnings = discovery.warnings;
                assert(models(monitors@) =~= ddc_models + wmi_models.take(0));
                for monitor in it: discovery.monitors
                    invariant
                        it.seq() == discovery.monitors@,
                        wmi_models == crate::monitor_control::wmi::models(discovery.monitors@),
                        models(monitors@) == ddc_models + wmi_models.take(it.index() as int),
                        forall|i: int|
                            0 <= i < monitors@.len() ==> monitor_model((#[trigger] monitors@[i])@),
                {
                    let ghost index = it.index() as int;
                    let ghost earlier = models(monitors@);
                    proof {
                        lemma_wmi_device(monitor);
                    }
                    let plain = Monitor::Wmi(monitor);
                    assert(plain@ == wmi_models[index]);
                    assert(models(monitors@.push(plain)) =~= earlier.push(plain@));
                    monitors.push(plain);
                    assert(models(monitors@) =~= ddc_models + wmi_models.take(index + 1));
                }
                assert(models(monitors@) =~= ddc_models + wmi_models);
            },
            Err(error) => {
                let message = error.to_string();
                warnings.push(concat("failed to refresh WMI monitors: ", message.as_str()));
                assert(views(warnings@) =~= seq![wmi_failure(error@)]);
                assert(models(monitors@) =~= ddc_models + Seq::<MonitorModel>::empty());
            },
        }
        self.monitors = monitors;
        assert(self.wf()) by {
            assert forall|i: int| 0 <= i < self@.len() implies monitor_model(
                #[trigger] self@[i],
            ) by {
                assert(monitor_model(self.monitors@[i]@));
            }
        }
        Ok(RefreshResult { snapshots: snapshots_of(&self.monitors), warnings })
    }

    /// Whether the request that an update makes necessary can be computed.
    pub fn can_apply(&self, update: &BrightnessUpdate) -> (r: bool)
        requires
            self.wf(),
        ensures
            r == (place_of(self@, update.id@) matches Some(i) ==> self@[i].can_set(
                update.value as int,
            )),
    {
        match find_monitor(&self.monitors, &update.id) {
            Some(i) => {
                assert(monitor_model(self@[i as int]));
                self.monitors[i].can_set(update.value)
            },
            None => true,
        }
    }

    /// The request that an update makes necessary: none where it is for a monitor that is not
    /// known.
    pub fn command(&self, update: &BrightnessUpdate) -> (r: Option<BrightnessCommand>)
        requires
            self.wf(),
            place_of(self@, update.id@) matches Some(i) ==> self@[i].can_set(update.value as int),
        ensures
            match r {
                Some(command) => command_for(self@, *update) == Some(command@),
                None => command_for(self@, *update) is None,
            },
    {
        match find_monitor(&self.monitors, &update.id) {
            Some(i) => {
                assert(monitor_model(self@[i as int]));
                Some(self.monitors[i].command(update.value))
            },
            None => None,
        }
    }

    /// Takes note of what came of an update. The reply is the answer to the update's request;
    /// where there was no request, it is not looked at.
    pub fn apply_update(&mut self, update: BrightnessUpdate, reply: Result<(), MonitorError>) -> (r:
        ApplyOutcome)
        requires
            old(self).wf(),
        ensures
            final(self).wf(),
            r@ == outcome_of(old(self)@, update, reply),
            final(self)@ == monitors_after(old(self)@, update, reply),
    {
        let ghost before_call = self@;
        let requested: i32 = percent_of(update.value);
        let i: usize = match find_monitor(&self.monitors, &update.id) {
            None => {
                let error = MonitorError::UnknownMonitor(update.id.clone());
                return ApplyOutcome {
                    id: update.id,
                    requested,
                    effective: None,
                    error: Some(error.to_string()),
                };
            },
            Some(i) => i,
        };
        proof {
            lemma_place_of(before_call, update.id@);
        }
        assert(monitor_model(self@[i as int]));
        let previous: i32 = self.monitors[i].brightness();
        let ghost list_before = self.monitors@;
        let answer = self.monitors[i].set_brightness(requested, reply);
        assert(models(self.monitors@) =~= models(list_before).update(
            i as int,
            self.monitors@[i as int]@,
        ));
        assert(self@ == monitors_after(before_call, update, reply)) by {
            assert(models(list_before).update(i as int, models(list_before)[i as int]) =~= models(
                list_before,
            ));
        }
        assert(self.wf()) by {
            assert forall|k: int| 0 <= k < self@.len() implies monitor_model(
                #[trigger] self@[k],
            ) by {
                assert(monitor_model(before_call[k]));
            }
        }
        let error = match answer {
            Ok(()) => None,
            Err(error) => Some(error.to_string()),
        };
        let effective: i32 = if error.is_some() {
            previous
        } else {
            requested
        };
        ApplyOutcome { id: update.id, requested, effective: Some(effective), error }
    }

    /// Takes note of what came of a list of updates, one after the other.
    pub fn apply(
        &mut self,
        updates: Vec<BrightnessUpdate>,
        replies: Vec<Result<(), MonitorError>>,
    ) -> (r: ApplyReport)
        requires
            old(self).wf(),
            updates@.len() == replies@.len(),
        ensures
            final(self).wf(),
            final(self)@ == monitors_after_all(old(self)@, updates@, replies@),
            r.outcomes@.len() == updates@.len(),
            forall|i: int|
                0 <= i < updates@.len() ==> (#[trigger] r.outcomes@[i])@ == outcome_of(
                    monitors_after_all(old(self)@, updates@.take(i), replies@.take(i)),
                    updates@[i],
                    replies@[i],
                ),
    {
        let ghost start = self@;
        let mut outcomes: Vec<ApplyOutcome> = Vec::new();
        let mut answers = replies;
        let count: usize = updates.len();
        let mut i: usize = 0;
        for update in it: updates
            invariant
                it.seq() == updates@,
                updates@.len() == count,
                i == it.index(),
                self.wf(),
                updates@.len() == replies@.len(),
                answers@ == replies@.skip(i as int),
                self@ == monitors_after_all(start, updates@.take(i as int), replies@.take(i as int)),
                outcomes@.len() == i,
                forall|k: int|
                    0 <= k < i ==> (#[trigger] outcomes@[k])@ == outcome_of(
                        monitors_after_all(start, updates@.take(k), replies@.take(k)),
                        updates@[k],
                        replies@[k],
                    ),
        {
            let reply = answers.remove(0);
            assert(reply == replies@[i as int]);
            assert(updates@.take(i + 1).drop_last() =~= updates@.take(i as int));
            assert(replies@.take(i + 1).take(i as int) =~= replies@.take(i as int));
            outcomes.push(self.apply_update(update, reply));
            i += 1;
        }
        assert(updates@.take(i as int) =~= updates@);
        assert(replies@.take(i as int) =~= replies@);
        ApplyReport { outcomes }
    }
}

/// An outcome tells the brightness that the monitor has after the update.
pub proof fn effective_brightness_is_that_afterwards(
    monitors: Seq<MonitorModel>,
    update: BrightnessUpdate,
    reply: Result<(), MonitorError>,
)
    ensures
        match place_of(monitors, update.id@) {
            Some(i) => outcome_of(monitors, update, reply).effective == Some(
                monitors_after(monitors, update, reply)[i].brightness,
            ),
            None => outcome_of(monitors, update, reply).effective is None,
        },
{
    lemma_place_of(monitors, update.id@);
}

/// An update changes nothing but the brightness of the monitor that it is for, and that only
/// where it succeeds.
pub proof fn update_changes_its_monitor_alone(
    monitors: Seq<MonitorModel>,
    update: BrightnessUpdate,
    reply: Result<(), MonitorError>,
    i: int,
)
    requires
        0 <= i < monitors.len(),
    ensures
        ({
            let later = monitors_after(monitors, update, reply);
            &&& later.len() == monitors.len()
            &&& later[i] == monitors[i].with_brightness(later[i].brightness)
            &&& later[i] != monitors[i] ==> place_of(monitors, update.id@) == Some(i) && reply is Ok
                && outcome_of(monitors, update, reply).error is None
        }),
{
    lemma_place_of(monitors, update.id@);
}

/// An update for a monitor that is not known changes nothing, whatever the reply.
pub proof fn unknown_monitor_changes_nothing(
    monitors: Seq<MonitorModel>,
    update: BrightnessUpdate,
    reply: Result<(), MonitorError>,
)
    requires
        forall|i: int| 0 <= i < monitors.len() ==> (#[trigger] monitors[i]).id != update.id@,
    ensures
        monitors_after(monitors, update, reply) == monitors,
        command_for(monitors, update) is None,
        outcome_of(monitors, update, reply).error == Some("unknown monitor id "@ + update.id@),
{
    lemma_place_of(monitors, update.id@);
}

/// Updates change nothing of the monitors but their brightness.
pub proof fn updates_change_brightness_alone(
    monitors: Seq<MonitorModel>,
    updates: Seq<BrightnessUpdate>,
    replies: Seq<Result<(), MonitorError>>,
)
    requires
        updates.len() <= replies.len(),
    ensures
        same_but_brightness(monitors_after_all(monitors, updates, replies), monitors),
    decreases updates.len(),
{
    if updates.len() > 0 {
        let last = updates.len() - 1;
        let earlier = monitors_after_all(monitors, updates.drop_last(), replies.take(last));
        updates_change_brightness_alone(monitors, updates.drop_last(), replies.take(last));
        lemma_place_of(earlier, updates[last].id@);
    }
}

/// The request that an update makes necessary is the same before and after other updates, so
/// the requests of a list can all be made before any answer is taken note of.
pub proof fn requests_do_not_depend_on_replies(
    monitors: Seq<MonitorModel>,
    updates: Seq<BrightnessUpdate>,
    replies: Seq<Result<(), MonitorError>>,
    update: BrightnessUpdate,
)
    requires
        updates.len() <= replies.len(),
    ensures
        command_for(monitors_after_all(monitors, updates, replies), update) == command_for(
            monitors,
            update,
        ),
{
    let later = monitors_after_all(monitors, updates, replies);
    updates_change_brightness_alone(monitors, updates, replies);
    lemma_place_of_ids(later, monitors, update.id@);
    lemma_place_of(monitors, update.id@);
}

} // verus!

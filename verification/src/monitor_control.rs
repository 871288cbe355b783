//! Finding the monitors of a machine and setting their brightness.
use vstd::prelude::*;

use vstd::hash_set::StringHashSet;

use self::ddc::{ddc_model, lemma_ddc_device, raw_fits, raw_value, DdcDiscovery, DdcMonitor};
use self::display_config::ActiveDisplayPaths;
use self::wmi::{lemma_wmi_device, wmi_brightness, WmiDiscovery, WmiMonitor};
use crate::text::{concat, concat3, copy_of, decimal, decimal_string, join, joined, views};

pub mod ddc;
pub mod display_config;
pub mod wmi;

verus! {

/// The stable name of a monitor.
#[derive(Debug)]
pub struct MonitorId {
    value: String,
}

impl View for MonitorId {
    type V = Seq<char>;

    closed spec fn view(&self) -> Seq<char> {
        self.value@
    }
}

impl Clone for MonitorId {
    fn clone(&self) -> (r: Self)
        ensures
            r == *self,
    {
        MonitorId { value: self.value.clone() }
    }
}

impl MonitorId {
    /// The id with the given text.
    pub fn new(value: &str) -> (r: Self)
        ensures
            r@ == value@,
    {
        MonitorId { value: value.to_owned() }
    }

    /// The id that the user interface knows by the given text.
    pub fn from_ui(value: &str) -> (r: Self)
        ensures
            r@ == value@,
    {
        MonitorId::new(value)
    }

    /// The text by which the user interface knows the id.
    pub fn to_ui(&self) -> (r: &str)
        ensures
            r@ == self@,
    {
        self.value.as_str()
    }

    /// Whether two ids name the same monitor.
    pub fn same(&self, other: &MonitorId) -> (r: bool)
        ensures
            r == (self@ == other@),
    {
        self.value == other.value
    }
}

/// What goes wrong when monitors are looked for or set.
#[derive(Debug)]
pub enum MonitorError {
    /// A Win32 call failed.
    Win32 { context: &'static str, code: u32 },
    /// A WMI call failed.
    Wmi { context: &'static str, details: String },
    /// The system handed out something that makes no sense.
    InvalidData { context: &'static str, details: String },
    /// An update was made for monitors that have been looked for again since.
    StaleGeneration { requested: u64, current: u64 },
    /// No monitor has this id.
    UnknownMonitor(MonitorId),
}

/// What an error says.
pub enum ErrorModel {
    Win32 { context: Seq<char>, code: u32 },
    Wmi { context: Seq<char>, details: Seq<char> },
    InvalidData { context: Seq<char>, details: Seq<char> },
    StaleGeneration { requested: u64, current: u64 },
    UnknownMonitor(Seq<char>),
}

impl ErrorModel {
    /// The message of the error.
    pub open spec fn text(self) -> Seq<char> {
        match self {
            ErrorModel::Win32 { context, code } => context + " (win32 error "@ + decimal(
                code as nat,
            ) + ")"@,
            ErrorModel::Wmi { context, details } => context + ": "@ + details,
            ErrorModel::InvalidData { context, details } => context + ": "@ + details,
            ErrorModel::StaleGeneration { requested, current } => "stale monitor generation "@
                + decimal(requested as nat) + "; current generation is "@ + decimal(current as nat),
            ErrorModel::UnknownMonitor(id) => "unknown monitor id "@ + id,
        }
    }
}

impl View for MonitorError {
    type V = ErrorModel;

    open spec fn view(&self) -> ErrorModel {
        match *self {
            MonitorError::Win32 { context, code } => ErrorModel::Win32 { context: context@, code },
            MonitorError::Wmi { context, details } => ErrorModel::Wmi {
                context: context@,
                details: details@,
            },
            MonitorError::InvalidData { context, details } => ErrorModel::InvalidData {
                context: context@,
                details: details@,
            },
            MonitorError::StaleGeneration { requested, current } => ErrorModel::StaleGeneration {
                requested,
                current,
            },
            MonitorError::UnknownMonitor(id) => ErrorModel::UnknownMonitor(id@),
        }
    }
}

impl MonitorError {
    /// The error of a WMI call that failed with the given message.
    pub fn wmi(context: &'static str, details: String) -> (r: Self)
        ensures
            r@ == (ErrorModel::Wmi { context: context@, details: details@ }),
    {
        MonitorError::Wmi { context, details }
    }

    /// The message of the error.
    pub fn to_string(&self) -> (r: String)
        ensures
            r@ == self@.text(),
    {
        match self {
            MonitorError::Win32 { context, code } => {
                let number = decimal_string(*code as u64);
                let head = concat3(context, " (win32 error ", number.as_str());
                concat(head.as_str(), ")")
            },
            MonitorError::Wmi { context, details } => concat3(context, ": ", details.as_str()),
            MonitorError::InvalidData { context, details } => concat3(
                context,
                ": ",
                details.as_str(),
            ),
            MonitorError::StaleGeneration { requested, current } => {
                let stale = decimal_string(*requested);
                let new = decimal_string(*current);
                let head = concat3(
                    "stale monitor generation ",
                    stale.as_str(),
                    "; current generation is ",
                );
                concat(head.as_str(), new.as_str())
            },
            MonitorError::UnknownMonitor(id) => concat("unknown monitor id ", id.to_ui()),
        }
    }
}

/// The error of a Win32 call that returned a failing status.
pub fn win32_status(context: &'static str, code: u32) -> (r: MonitorError)
    ensures
        r@ == (ErrorModel::Win32 { context: context@, code }),
{
    MonitorError::Win32 { context, code }
}

/// The value nearest to `value` in the range of percentages.
pub open spec fn clamp_percent(value: int) -> int {
    if value < 0 {
        0
    } else if value > 100 {
        100
    } else {
        value
    }
}

/// The value nearest to `value` in the range of percentages.
pub fn percent_of(value: i32) -> (r: i32)
    ensures
        r == clamp_percent(value as int),
{
    if value < 0 {
        0
    } else if value > 100 {
        100
    } else {
        value
    }
}

/// How a monitor is reached.
pub enum DeviceModel {
    /// By DDC/CI, with the raw values from `min` to `max`.
    Ddc { handle: usize, min: u32, max: u32 },
    /// By WMI.
    Wmi { instance_path: Seq<char> },
}

/// What is known of a monitor.
pub struct MonitorModel {
    pub id: Seq<char>,
    pub name: Seq<char>,
    pub brightness: i32,
    pub device: DeviceModel,
}

impl MonitorModel {
    /// The monitor after its brightness was set.
    pub open spec fn with_brightness(self, brightness: i32) -> MonitorModel {
        MonitorModel { brightness, ..self }
    }
}

/// A monitor, reached one way or the other.
#[derive(Debug)]
pub enum Monitor {
    Ddc(Box<DdcMonitor>),
    Wmi(WmiMonitor),
}

impl View for Monitor {
    type V = MonitorModel;

    open spec fn view(&self) -> MonitorModel {
        match *self {
            Monitor::Ddc(monitor) => monitor@,
            Monitor::Wmi(monitor) => monitor@,
        }
    }
}

/// Whether a monitor with this model can be: one that speaks DDC/CI has a range that is not
/// empty and a percentage for its brightness.
pub open spec fn monitor_model(model: MonitorModel) -> bool {
    model.device is Ddc ==> ddc_model(model)
}

/// The request that sets a monitor to a percentage.
pub enum CommandModel {
    /// Hand the raw value to the monitor with this handle.
    Ddc { handle: usize, raw: int },
    /// Call `WmiSetBrightness` on this object.
    Wmi { instance_path: Seq<char>, brightness: int },
}

/// The request that sets a monitor to a percentage.
#[derive(Debug)]
pub enum BrightnessCommand {
    /// Hand the raw value to the monitor with this handle.
    Ddc { handle: usize, raw: u32 },
    /// Call `WmiSetBrightness` on this object.
    Wmi { instance_path: String, brightness: u8 },
}

impl View for BrightnessCommand {
    type V = CommandModel;

    open spec fn view(&self) -> CommandModel {
        match *self {
            BrightnessCommand::Ddc { handle, raw } => CommandModel::Ddc { handle, raw: raw as int },
            BrightnessCommand::Wmi { instance_path, brightness } => CommandModel::Wmi {
                instance_path: instance_path@,
                brightness: brightness as int,
            },
        }
    }
}

impl MonitorModel {
    /// The request that sets the monitor to a percentage.
    pub open spec fn command(self, percent: int) -> CommandModel {
        match self.device {
            DeviceModel::Ddc { handle, min, max } => CommandModel::Ddc {
                handle,
                raw: raw_value(percent, min as int, max as int),
            },
            DeviceModel::Wmi { instance_path } => CommandModel::Wmi {
                instance_path,
                brightness: clamp_percent(percent),
            },
        }
    }

    /// Whether the request can be computed in 32 bits.
    pub open spec fn can_set(self, percent: int) -> bool {
        self.device matches DeviceModel::Ddc { min, max, .. } ==> raw_fits(
            percent,
            min as int,
            max as int,
        )
    }
}

impl Monitor {
    /// The id of the monitor.
    pub fn id(&self) -> (r: &MonitorId)
        ensures
            r@ == self@.id,
    {
        match self {
            Monitor::Ddc(monitor) => monitor.id(),
            Monitor::Wmi(monitor) => monitor.id(),
        }
    }

    /// The name of the monitor.
    pub fn name(&self) -> (r: &str)
        ensures
            r@ == self@.name,
    {
        match self {
            Monitor::Ddc(monitor) => monitor.name(),
            Monitor::Wmi(monitor) => monitor.name(),
        }
    }

    /// The brightness of the monitor.
    pub fn brightness(&self) -> (r: i32)
        ensures
            r == self@.brightness,
    {
        match self {
            Monitor::Ddc(monitor) => monitor.brightness(),
            Monitor::Wmi(monitor) => monitor.brightness(),
        }
    }

    /// Whether the request that sets the monitor to a percentage can be computed.
    pub fn can_set(&self, percent: i32) -> (r: bool)
        requires
            monitor_model(self@),
        ensures
            r == self@.can_set(percent as int),
    {
        match self {
            Monitor::Ddc(monitor) => {
                proof {
                    lemma_ddc_device(**monitor);
                }
                monitor.can_set(percent)
            },
            Monitor::Wmi(monitor) => {
                proof {
                    lemma_wmi_device(*monitor);
                }
                true
            },
        }
    }

    /// The request that sets the monitor to a percentage.
    pub fn command(&self, percent: i32) -> (r: BrightnessCommand)
        requires
            monitor_model(self@),
            self@.can_set(percent as int),
        ensures
            r@ == self@.command(percent as int),
    {
        match self {
            Monitor::Ddc(monitor) => {
                let handle = monitor.handle();
                BrightnessCommand::Ddc { handle, raw: monitor.raw_brightness(percent) }
            },
            Monitor::Wmi(monitor) => BrightnessCommand::Wmi {
                instance_path: monitor.instance_path().to_owned(),
                brightness: wmi_brightness(percent),
            },
        }
    }

    /// Takes note of the answer to a request to set the brightness.
    pub fn set_brightness<E>(&mut self, percent: i32, reply: Result<(), E>) -> (r: Result<(), E>)
        requires
            monitor_model(old(self)@),
        ensures
            monitor_model(final(self)@),
            r == reply,
            final(self)@ == match reply {
                Ok(()) => old(self)@.with_brightness(clamp_percent(percent as int) as i32),
                Err(_) => old(self)@,
            },
    {
        match self {
            Monitor::Ddc(monitor) => {
                proof {
                    lemma_ddc_device(**monitor);
                }
                monitor.set_brightness(percent, reply)
            },
            Monitor::Wmi(monitor) => monitor.set_brightness(percent, reply),
        }
    }
}

/// A request to set a monitor to a brightness, made when the monitors were last looked for in
/// the given generation.
#[derive(Debug)]
pub struct BrightnessUpdate {
    pub generation: u64,
    pub id: MonitorId,
    pub value: i32,
}

/// What came of an update.
#[derive(Debug)]
pub struct ApplyOutcome {
    pub generation: u64,
    pub id: MonitorId,
    /// The percentage that was asked for.
    pub requested: i32,
    /// The brightness afterwards, where the monitor is known.
    pub effective: Option<i32>,
    /// What went wrong.
    pub error: Option<String>,
}

/// What came of a list of updates.
#[derive(Debug)]
pub struct ApplyReport {
    pub outcomes: Vec<ApplyOutcome>,
}

/// What is shown of a monitor.
#[derive(Debug)]
pub struct MonitorSnapshot {
    pub id: MonitorId,
    pub name: String,
    pub brightness: i32,
}

/// The monitors that were found.
#[derive(Debug)]
pub struct RefreshResult {
    pub generation: u64,
    pub snapshots: Vec<MonitorSnapshot>,
    pub warnings: Vec<String>,
}

/// What came of an update.
pub struct OutcomeModel {
    pub generation: u64,
    pub id: Seq<char>,
    pub requested: i32,
    pub effective: Option<i32>,
    pub error: Option<Seq<char>>,
}

impl View for ApplyOutcome {
    type V = OutcomeModel;

    open spec fn view(&self) -> OutcomeModel {
        OutcomeModel {
            generation: self.generation,
            id: self.id@,
            requested: self.requested,
            effective: self.effective,
            error: match self.error {
                Some(message) => Some(message@),
                None => None,
            },
        }
    }
}

/// What the monitors of a list are.
pub open spec fn models(monitors: Seq<Monitor>) -> Seq<MonitorModel> {
    Seq::new(monitors.len(), |i: int| monitors[i]@)
}

/// Whether a list holds a monitor with the given id.
pub open spec fn holds_id(monitors: Seq<MonitorModel>, id: Seq<char>) -> bool {
    exists|i: int| 0 <= i < monitors.len() && (#[trigger] monitors[i]).id == id
}

/// The place of the first monitor with the given id.
pub open spec fn place_of(monitors: Seq<MonitorModel>, id: Seq<char>) -> Option<int>
    decreases monitors.len(),
{
    if monitors.len() == 0 {
        None
    } else if monitors[0].id == id {
        Some(0)
    } else {
        match place_of(monitors.drop_first(), id) {
            Some(i) => Some(i + 1),
            None => None,
        }
    }
}

/// Whether no two monitors of a list have the same id.
pub open spec fn distinct_ids(monitors: Seq<MonitorModel>) -> bool {
    forall|i: int, j: int|
        0 <= i < j < monitors.len() ==> (#[trigger] monitors[i]).id != (#[trigger] monitors[j]).id
}

/// The place of a monitor is that of the first with its id, and there is none without.
pub proof fn lemma_place_of(monitors: Seq<MonitorModel>, id: Seq<char>)
    ensures
        match place_of(monitors, id) {
            Some(i) => 0 <= i < monitors.len() && monitors[i].id == id && forall|k: int|
                0 <= k < i ==> (#[trigger] monitors[k]).id != id,
            None => !holds_id(monitors, id),
        },
    decreases monitors.len(),
{
    if monitors.len() > 0 && monitors[0].id != id {
        let tail = monitors.drop_first();
        lemma_place_of(tail, id);
        match place_of(tail, id) {
            Some(i) => {
                assert forall|k: int| 0 <= k < i + 1 implies (#[trigger] monitors[k]).id != id by {
                    if k > 0 {
                        assert(monitors[k] == tail[k - 1]);
                    }
                }
            },
            None => {
                assert forall|k: int| 0 <= k < monitors.len() implies (#[trigger] monitors[k]).id
                    != id by {
                    if k > 0 {
                        assert(monitors[k] == tail[k - 1]);
                    }
                }
            },
        }
    }
}

/// The monitors that a controller knows, and how often they were looked for.
pub struct ControllerModel {
    pub monitors: Seq<MonitorModel>,
    pub generation: u64,
}

impl ControllerModel {
    /// Every monitor can be, and no two have the same id.
    pub open spec fn wf(self) -> bool {
        &&& forall|i: int|
            0 <= i < self.monitors.len() ==> monitor_model(#[trigger] self.monitors[i])
        &&& distinct_ids(self.monitors)
    }

    /// The monitor that an update is for, where the update is of this generation.
    pub open spec fn target(self, update: BrightnessUpdate) -> Option<int> {
        if update.generation != self.generation {
            None
        } else {
            place_of(self.monitors, update.id@)
        }
    }

    /// The request that an update makes necessary.
    pub open spec fn command(self, update: BrightnessUpdate) -> Option<CommandModel> {
        match self.target(update) {
            Some(i) => Some(self.monitors[i].command(update.value as int)),
            None => None,
        }
    }

    /// What came of an update: a stale one and one for an unknown monitor are refused, every
    /// other ends as the monitor's answer to the request says.
    pub open spec fn outcome(self, update: BrightnessUpdate, reply: Result<(), MonitorError>) ->
        OutcomeModel {
        let requested = clamp_percent(update.value as int) as i32;
        let refused = OutcomeModel {
            generation: update.generation,
            id: update.id@,
            requested,
            effective: None,
            error: None,
        };
        if update.generation != self.generation {
            OutcomeModel {
                error: Some(
                    ErrorModel::StaleGeneration {
                        requested: update.generation,
                        current: self.generation,
                    }.text(),
                ),
                ..refused
            }
        } else {
            match place_of(self.monitors, update.id@) {
                None => OutcomeModel {
                    error: Some(ErrorModel::UnknownMonitor(update.id@).text()),
                    ..refused
                },
                Some(i) => match reply {
                    Ok(()) => OutcomeModel { effective: Some(requested), ..refused },
                    Err(error) => OutcomeModel {
                        effective: Some(self.monitors[i].brightness),
                        error: Some(error@.text()),
                        ..refused
                    },
                },
            }
        }
    }

    /// The controller after an update.
    pub open spec fn after(self, update: BrightnessUpdate, reply: Result<(), MonitorError>) ->
        ControllerModel {
        match self.target(update) {
            Some(i) => match reply {
                Ok(()) => ControllerModel {
                    monitors: self.monitors.update(
                        i,
                        self.monitors[i].with_brightness(clamp_percent(update.value as int) as i32),
                    ),
                    ..self
                },
                Err(_) => self,
            },
            None => self,
        }
    }

    /// The controller after a list of updates.
    pub open spec fn after_all(
        self,
        updates: Seq<BrightnessUpdate>,
        replies: Seq<Result<(), MonitorError>>,
    ) -> ControllerModel
        decreases updates.len(),
    {
        if updates.len() == 0 {
            self
        } else {
            let last = updates.len() - 1;
            self.after_all(updates.drop_last(), replies).after(updates[last], replies[last])
        }
    }
}

/// The generation that follows another. It is never zero.
pub open spec fn next_generation(generation: u64) -> u64 {
    if generation == u64::MAX {
        1
    } else {
        (generation + 1) as u64
    }
}

/// The monitors of a list, each id only where it comes first.
pub open spec fn first_of_each(monitors: Seq<MonitorModel>) -> Seq<MonitorModel>
    decreases monitors.len(),
{
    if monitors.len() == 0 {
        seq![]
    } else {
        let earlier = monitors.drop_last();
        if holds_id(earlier, monitors.last().id) {
            first_of_each(earlier)
        } else {
            first_of_each(earlier).push(monitors.last())
        }
    }
}

/// The warnings about the monitors of a list whose id came before.
pub open spec fn duplicate_warnings(monitors: Seq<MonitorModel>) -> Seq<Seq<char>>
    decreases monitors.len(),
{
    if monitors.len() == 0 {
        seq![]
    } else {
        let earlier = monitors.drop_last();
        let last = monitors.last();
        if holds_id(earlier, last.id) {
            duplicate_warnings(earlier).push(
                "ignored duplicate monitor id "@ + last.id + " ("@ + last.name + ")"@,
            )
        } else {
            duplicate_warnings(earlier)
        }
    }
}

/// Leaving out the later ones of each id leaves no id twice and loses none.
pub proof fn lemma_first_of_each(monitors: Seq<MonitorModel>)
    ensures
        distinct_ids(first_of_each(monitors)),
        forall|id: Seq<char>| #[trigger]
            holds_id(first_of_each(monitors), id) <==> holds_id(monitors, id),
        forall|i: int|
            0 <= i < first_of_each(monitors).len() ==> monitors.contains(
                #[trigger] first_of_each(monitors)[i],
            ),
    decreases monitors.len(),
{
    if monitors.len() > 0 {
        let earlier = monitors.drop_last();
        let last = monitors.last();
        let kept = first_of_each(earlier);
        let result = first_of_each(monitors);
        lemma_first_of_each(earlier);
        assert forall|id: Seq<char>| holds_id(monitors, id) <==> holds_id(earlier, id) || last.id
            == id by {
            if holds_id(monitors, id) {
                let k = choose|k: int| 0 <= k < monitors.len() && (#[trigger] monitors[k]).id == id;
                if k < earlier.len() {
                    assert(earlier[k].id == id);
                }
            }
            if holds_id(earlier, id) {
                let k = choose|k: int| 0 <= k < earlier.len() && (#[trigger] earlier[k]).id == id;
                assert(monitors[k].id == id);
            }
            if last.id == id {
                assert(monitors[monitors.len() - 1].id == id);
            }
        }
        assert forall|i: int| 0 <= i < result.len() implies monitors.contains(
            #[trigger] result[i],
        ) by {
            if i < kept.len() {
                assert(earlier.contains(kept[i]));
                let k = choose|k: int| 0 <= k < earlier.len() && earlier[k] == kept[i];
                assert(monitors[k] == kept[i]);
            } else {
                assert(monitors[monitors.len() - 1] == last);
            }
        }
        if holds_id(earlier, last.id) {
        } else {
            assert forall|i: int, j: int| 0 <= i < j < result.len() implies (
            #[trigger] result[i]).id != (#[trigger] result[j]).id by {
                if j == kept.len() {
                    if kept[i].id == last.id {
                        assert(holds_id(kept, last.id));
                    }
                }
            }
            assert forall|id: Seq<char>| #[trigger]
                holds_id(result, id) <==> holds_id(kept, id) || last.id == id by {
                if holds_id(result, id) {
                    let k = choose|k: int| 0 <= k < result.len() && (#[trigger] result[k]).id == id;
                    if k < kept.len() {
                        assert(kept[k].id == id);
                    }
                }
                if holds_id(kept, id) {
                    let k = choose|k: int| 0 <= k < kept.len() && (#[trigger] kept[k]).id == id;
                    assert(result[k].id == id);
                }
                if last.id == id {
                    assert(result[kept.len() as int].id == id);
                }
            }
        }
    }
}

/// What there is to say about the active paths.
pub open spec fn path_notes(paths: Result<ActiveDisplayPaths, MonitorError>) -> Seq<Seq<char>> {
    match paths {
        Ok(paths) => paths.warning_texts(),
        Err(error) => seq!["failed to query active display paths: "@ + error@.text()],
    }
}

/// The message about DDC/CI monitors that could not be looked for.
pub open spec fn ddc_failure(error: ErrorModel) -> Seq<char> {
    "failed to refresh DDC monitors: "@ + error.text()
}

/// The message about WMI monitors that could not be looked for.
pub open spec fn wmi_failure(error: ErrorModel) -> Seq<char> {
    "failed to refresh WMI monitors: "@ + error.text()
}

/// What there is to say about the DDC/CI monitors.
pub open spec fn ddc_notes(ddc: Result<DdcDiscovery, MonitorError>) -> Seq<Seq<char>> {
    match ddc {
        Ok(discovery) => views(discovery.warnings@),
        Err(error) => seq![ddc_failure(error@)],
    }
}

/// What there is to say about the WMI monitors.
pub open spec fn wmi_notes(wmi: Result<WmiDiscovery, MonitorError>) -> Seq<Seq<char>> {
    match wmi {
        Ok(discovery) => views(discovery.warnings@),
        Err(error) => seq![wmi_failure(error@)],
    }
}

/// The monitors that were found, those that speak DDC/CI first.
pub open spec fn found_monitors(
    ddc: Result<DdcDiscovery, MonitorError>,
    wmi: Result<WmiDiscovery, MonitorError>,
) -> Seq<MonitorModel> {
    (match ddc {
        Ok(discovery) => self::ddc::models(discovery.monitors@),
        Err(_) => seq![],
    }) + (match wmi {
        Ok(discovery) => self::wmi::models(discovery.monitors@),
        Err(_) => seq![],
    })
}

/// Whether a list of snapshots shows exactly the monitors of a list.
pub open spec fn shows(snapshots: Seq<MonitorSnapshot>, monitors: Seq<MonitorModel>) -> bool {
    snapshots.len() == monitors.len() && forall|i: int|
        0 <= i < snapshots.len() ==> {
            &&& (#[trigger] snapshots[i]).id@ == monitors[i].id
            &&& snapshots[i].name@ == monitors[i].name
            &&& snapshots[i].brightness == monitors[i].brightness
        }
}

/// A list of monitors in the making, without the later ones of each id.
struct Collection {
    monitors: Vec<Monitor>,
    ids: StringHashSet,
    duplicates: Vec<String>,
}

impl Collection {
    /// The collection holds the given monitors.
    spec fn holds(self, all: Seq<MonitorModel>) -> bool {
        &&& models(self.monitors@) == first_of_each(all)
        &&& forall|id: Seq<char>| #[trigger] self.ids@.contains(id) <==> holds_id(all, id)
        &&& views(self.duplicates@) == duplicate_warnings(all)
        &&& forall|i: int| 0 <= i < all.len() ==> monitor_model(#[trigger] all[i])
    }

    fn new() -> (r: Self)
        ensures
            r.holds(seq![]),
    {
        let r = Collection {
            monitors: Vec::new(),
            ids: StringHashSet::new(),
            duplicates: Vec::new(),
        };
        assert(models(r.monitors@) =~= seq![]);
        assert(views(r.duplicates@) =~= seq![]);
        r
    }

    /// Adds a monitor, unless one with its id is there.
    fn add(&mut self, monitor: Monitor, Ghost(all): Ghost<Seq<MonitorModel>>)
        requires
            old(self).holds(all),
            monitor_model(monitor@),
        ensures
            final(self).holds(all.push(monitor@)),
    {
        let ghost extended = all.push(monitor@);
        assert(extended.drop_last() =~= all);
        let ghost models_before = models(self.monitors@);
        let ghost duplicates_before = views(self.duplicates@);
        if self.ids.insert(monitor.id().to_ui().to_owned()) {
            assert(models(self.monitors@.push(monitor)) =~= models_before.push(monitor@));
            self.monitors.push(monitor);
        } else {
            let head = concat3("ignored duplicate monitor id ", monitor.id().to_ui(), " (");
            let message = concat3(head.as_str(), monitor.name(), ")");
            assert(views(self.duplicates@.push(message)) =~= duplicates_before.push(message@));
            self.duplicates.push(message);
        }
        proof {
            assert forall|id: Seq<char>| #[trigger] self.ids@.contains(id) <==> holds_id(
                extended,
                id,
            ) by {
                if holds_id(extended, id) {
                    let k = choose|k: int|
                        0 <= k < extended.len() && (#[trigger] extended[k]).id == id;
                    if k < all.len() {
                        assert(all[k].id == id);
                    }
                }
                if holds_id(all, id) {
                    let k = choose|k: int| 0 <= k < all.len() && (#[trigger] all[k]).id == id;
                    assert(extended[k].id == id);
                }
                if id == monitor@.id {
                    assert(extended[all.len() as int].id == id);
                }
            }
            assert forall|i: int| 0 <= i < extended.len() implies monitor_model(
                #[trigger] extended[i],
            ) by {
                if i < all.len() {
                    assert(extended[i] == all[i]);
                }
            }
        }
    }
}

/// What is shown of the monitors of a list.
pub fn snapshots_of(monitors: &[Monitor]) -> (r: Vec<MonitorSnapshot>)
    ensures
        shows(r@, models(monitors@)),
{
    let mut r: Vec<MonitorSnapshot> = Vec::new();
    let mut i: usize = 0;
    while i < monitors.len()
        invariant
            i <= monitors@.len(),
            shows(r@, models(monitors@).take(i as int)),
        decreases monitors@.len() - i,
    {
        let monitor = &monitors[i];
        r.push(
            MonitorSnapshot {
                id: monitor.id().clone(),
                name: monitor.name().to_owned(),
                brightness: monitor.brightness(),
            },
        );
        i += 1;
    }
    assert(models(monitors@).take(i as int) =~= models(monitors@));
    r
}

/// The place of the first monitor with the given id.
pub fn find_monitor(monitors: &[Monitor], id: &MonitorId) -> (r: Option<usize>)
    ensures
        match r {
            Some(i) => i < monitors@.len() && place_of(models(monitors@), id@) == Some(i as int),
            None => place_of(models(monitors@), id@) is None,
        },
{
    let ghost all = models(monitors@);
    let mut i: usize = 0;
    assert(all.skip(0) =~= all);
    while i < monitors.len()
        invariant
            i <= monitors@.len(),
            all == models(monitors@),
            place_of(all, id@) == match place_of(all.skip(i as int), id@) {
                Some(k) => Some(i + k),
                None => None,
            },
        decreases monitors@.len() - i,
    {
        let ghost rest = all.skip(i as int);
        if monitors[i].id().same(id) {
            return Some(i);
        }
        assert(rest.drop_first() =~= all.skip(i + 1));
        i += 1;
    }
    None
}

/// Finds monitors and sets their brightness.
pub struct MonitorController {
    monitors: Vec<Monitor>,
    generation: u64,
}

impl View for MonitorController {
    type V = ControllerModel;

    closed spec fn view(&self) -> ControllerModel {
        ControllerModel { monitors: models(self.monitors@), generation: self.generation }
    }
}

impl MonitorController {
    /// Every monitor can be, and no two have the same id.
    pub open spec fn wf(self) -> bool {
        self@.wf()
    }

    /// A controller that has not looked for monitors yet.
    pub fn new() -> (r: Self)
        ensures
            r.wf(),
            r@ == (ControllerModel { monitors: seq![], generation: 0 }),
    {
        let r = MonitorController { monitors: Vec::new(), generation: 0 };
        assert(models(r.monitors@) =~= seq![]);
        r
    }

    /// A controller that has not looked for monitors yet.
    pub fn default() -> (r: Self)
        ensures
            r.wf(),
            r@ == (ControllerModel { monitors: seq![], generation: 0 }),
    {
        MonitorController::new()
    }

    /// The active paths by which WMI monitors are told apart, where they are known to be all.
    pub fn active_filter(paths: &ActiveDisplayPaths) -> (r: Option<&ActiveDisplayPaths>)
        ensures
            r == if paths.completed() {
                Some(paths)
            } else {
                None
            },
    {
        if paths.is_complete() {
            Some(paths)
        } else {
            None
        }
    }

    /// Takes over the monitors that were found. Where neither kind of monitor could be looked
    /// for, the controller stays as it is. A monitor whose id came before is left out.
    pub fn refresh(
        &mut self,
        paths: Result<ActiveDisplayPaths, MonitorError>,
        ddc: Result<DdcDiscovery, MonitorError>,
        wmi: Result<WmiDiscovery, MonitorError>,
    ) -> (r: Result<RefreshResult, MonitorError>)
        requires
            old(self).wf(),
            ddc matches Ok(discovery) ==> forall|i: int|
                0 <= i < discovery.monitors@.len() ==> (#[trigger] discovery.monitors@[i]).wf(),
        ensures
            final(self).wf(),
            match (ddc, wmi) {
                (Err(ddc_error), Err(wmi_error)) => {
                    &&& *final(self) == *old(self)
                    &&& r matches Err(error) && error@ == (ErrorModel::InvalidData {
                        context: "monitor discovery failed"@,
                        details: joined(
                            seq![ddc_failure(ddc_error@), wmi_failure(wmi_error@)],
                            "; "@,
                        ),
                    })
                },
                _ => {
                    let all = found_monitors(ddc, wmi);
                    &&& final(self)@ == (ControllerModel {
                        monitors: first_of_each(all),
                        generation: next_generation(old(self)@.generation),
                    })
                    &&& r matches Ok(result) && {
                        &&& result.generation == final(self)@.generation
                        &&& shows(result.snapshots@, final(self)@.monitors)
                        &&& views(result.warnings@) == path_notes(paths) + ddc_notes(ddc)
                            + wmi_notes(wmi) + duplicate_warnings(all)
                    }
                },
            },
    {
        let ghost all = found_monitors(ddc, wmi);
        let mut warnings: Vec<String> = Vec::new();
        match &paths {
            Ok(paths) => {
                warnings = copy_of(paths.warnings());
            },
            Err(error) => {
                let message = error.to_string();
                warnings.push(concat("failed to query active display paths: ", message.as_str()));
                assert(views(warnings@) =~= path_notes(paths));
            },
        }
        assert(views(warnings@) == path_notes(paths));

        let mut collection = Collection::new();
        let ghost mut seen: Seq<MonitorModel> = seq![];
        let mut successful_backends: u32 = 0;
        let mut backend_errors: Vec<String> = Vec::new();

        let ghost notes = views(warnings@);
        match ddc {
            Ok(discovery) => {
                successful_backends = successful_backends + 1;
                let ghost ddc_models = self::ddc::models(discovery.monitors@);
                let mut discovered_warnings = discovery.warnings;
                assert(views(warnings@ + discovered_warnings@) =~= notes + views(
                    discovered_warnings@,
                ));
                warnings.append(&mut discovered_warnings);
                for monitor in it: discovery.monitors
                    invariant
                        it.seq() == discovery.monitors@,
                        ddc_models == self::ddc::models(discovery.monitors@),
                        forall|i: int|
                            0 <= i < discovery.monitors@.len() ==> (
                            #[trigger] discovery.monitors@[i]).wf(),
                        seen == ddc_models.take(it.index() as int),
                        collection.holds(seen),
                {
                    let ghost index = it.index() as int;
                    assert(discovery.monitors@[index].wf());
                    proof {
                        lemma_ddc_device(monitor);
                    }
                    let boxed = Monitor::Ddc(Box::new(monitor));
                    assert(boxed@ == ddc_models[index]);
                    collection.add(boxed, Ghost(seen));
                    proof {
                        seen = seen.push(boxed@);
                        assert(seen =~= ddc_models.take(index + 1));
                    }
                }
                assert(seen =~= ddc_models);
            },
            Err(error) => {
                let message = error.to_string();
                let failure = concat("failed to refresh DDC monitors: ", message.as_str());
                assert(views(warnings@.push(failure)) =~= notes + seq![failure@]);
                warnings.push(failure.clone());
                backend_errors.push(failure);
            },
        }
        assert(views(warnings@) == path_notes(paths) + ddc_notes(ddc));
        let ghost first = seen;

        let ghost notes = views(warnings@);
        match wmi {
            Ok(discovery) => {
                successful_backends = successful_backends + 1;
                let ghost wmi_models = self::wmi::models(discovery.monitors@);
                let mut discovered_warnings = discovery.warnings;
                assert(views(warnings@ + discovered_warnings@) =~= notes + views(
                    discovered_warnings@,
                ));
                warnings.append(&mut discovered_warnings);
                assert(seen =~= first + wmi_models.take(0));
                for monitor in it: discovery.monitors
                    invariant
                        it.seq() == discovery.monitors@,
                        wmi_models == self::wmi::models(discovery.monitors@),
                        seen == first + wmi_models.take(it.index() as int),
                        collection.holds(seen),
                {
                    let ghost index = it.index() as int;
                    proof {
                        lemma_wmi_device(monitor);
                    }
                    let plain = Monitor::Wmi(monitor);
                    assert(plain@ == wmi_models[index]);
                    collection.add(plain, Ghost(seen));
                    proof {
                        seen = seen.push(plain@);
                        assert(seen =~= first + wmi_models.take(index + 1));
                    }
                }
                assert(seen =~= first + wmi_models);
            },
            Err(error) => {
                let message = error.to_string();
                let failure = concat("failed to refresh WMI monitors: ", message.as_str());
                assert(views(warnings@.push(failure)) =~= notes + seq![failure@]);
                warnings.push(failure.clone());
                backend_errors.push(failure);
                assert(seen =~= first + Seq::<MonitorModel>::empty());
            },
        }
        assert(seen =~= all);
        assert(views(warnings@) == path_notes(paths) + ddc_notes(ddc) + wmi_notes(wmi));

        if successful_backends == 0 {
            assert(ddc is Err && wmi is Err);
            assert(views(backend_errors@) =~= seq![
                ddc_failure(ddc->Err_0@),
                wmi_failure(wmi->Err_0@),
            ]);
            return Err(
                MonitorError::InvalidData {
                    context: "monitor discovery failed",
                    details: join(&backend_errors, "; "),
                },
            );
        }
        let ghost notes = views(warnings@);
        let mut duplicates = collection.duplicates;
        assert(views(warnings@ + duplicates@) =~= notes + views(duplicates@));
        warnings.append(&mut duplicates);

        self.monitors = collection.monitors;
        self.generation = if self.generation == u64::MAX {
            1
        } else {
            self.generation + 1
        };
        proof {
            lemma_first_of_each(all);
            assert forall|i: int| 0 <= i < self@.monitors.len() implies monitor_model(
                #[trigger] self@.monitors[i],
            ) by {
                assert(all.contains(first_of_each(all)[i]));
            }
        }
        let snapshots = self.snapshots();
        Ok(RefreshResult { generation: self.generation, snapshots, warnings })
    }

    /// What is shown of the monitors.
    pub fn snapshots(&self) -> (r: Vec<MonitorSnapshot>)
        ensures
            shows(r@, self@.monitors),
    {
        snapshots_of(&self.monitors)
    }

    /// Whether the request that an update makes necessary can be computed.
    pub fn can_apply(&self, update: &BrightnessUpdate) -> (r: bool)
        requires
            self.wf(),
        ensures
            r == (self@.target(*update) matches Some(i) ==> self@.monitors[i].can_set(
                update.value as int,
            )),
    {
        if update.generation != self.generation {
            return true;
        }
        match find_monitor(&self.monitors, &update.id) {
            Some(i) => {
                assert(monitor_model(self@.monitors[i as int]));
                self.monitors[i].can_set(update.value)
            },
            None => true,
        }
    }

    /// The request that an update makes necessary: none where the update is stale or for a
    /// monitor that is not known.
    pub fn command(&self, update: &BrightnessUpdate) -> (r: Option<BrightnessCommand>)
        requires
            self.wf(),
            self@.target(*update) matches Some(i) ==> self@.monitors[i].can_set(
                update.value as int,
            ),
        ensures
            match r {
                Some(command) => self@.command(*update) == Some(command@),
                None => self@.command(*update) is None,
            },
    {
        if update.generation != self.generation {
            return None;
        }
        match find_monitor(&self.monitors, &update.id) {
            Some(i) => {
                assert(monitor_model(self@.monitors[i as int]));
                Some(self.monitors[i].command(update.value))
            },
            None => None,
        }
    }

    /// Takes note of what came of an update. The reply is the answer to the update's request;
    /// where there was no request, it is not looked at.
    pub fn apply_update(&mut self, update: BrightnessUpdate, reply: Result<(), MonitorError>) -> (r:
        ApplyOutcome)
        requires
            old(self).wf(),
        ensures
            final(self).wf(),
            r@ == old(self)@.outcome(update, reply),
            final(self)@ == old(self)@.after(update, reply),
    {
        let ghost before_call = self@;
        let requested: i32 = percent_of(update.value);
        if update.generation != self.generation {
            let error = MonitorError::StaleGeneration {
                requested: update.generation,
                current: self.generation,
            };
            return ApplyOutcome {
                generation: update.generation,
                id: update.id,
                requested,
                effective: None,
                error: Some(error.to_string()),
            };
        }
        let i: usize = match find_monitor(&self.monitors, &update.id) {
            None => {
                let error = MonitorError::UnknownMonitor(update.id.clone());
                return ApplyOutcome {
                    generation: update.generation,
                    id: update.id,
                    requested,
                    effective: None,
                    error: Some(error.to_string()),
                };
            },
            Some(i) => i,
        };
        proof {
            lemma_place_of(before_call.monitors, update.id@);
        }
        assert(monitor_model(self@.monitors[i as int]));
        let previous: i32 = self.monitors[i].brightness();
        let ghost list_before = self.monitors@;
        let answer = self.monitors[i].set_brightness(requested, reply);
        assert(models(self.monitors@) =~= models(list_before).update(
            i as int,
            self.monitors@[i as int]@,
        ));
        assert(self@ == before_call.after(update, reply)) by {
            assert(models(list_before).update(i as int, models(list_before)[i as int]) =~= models(
                list_before,
            ));
        }
        assert(self.wf()) by {
            let now = self@.monitors;
            assert forall|k: int| 0 <= k < now.len() implies monitor_model(#[trigger] now[k]) by {
                assert(monitor_model(before_call.monitors[k]));
            }
            assert forall|a: int, b: int| 0 <= a < b < now.len() implies (#[trigger] now[a]).id != (
            #[trigger] now[b]).id by {
                assert(before_call.monitors[a].id != before_call.monitors[b].id);
            }
        }
        let error = match answer {
            Ok(()) => None,
            Err(error) => Some(error.to_string()),
        };
        let effective: i32 = if error.is_some() {
            previous
        } else {
            requested
        };
        ApplyOutcome {
            generation: update.generation,
            id: update.id,
            requested,
            effective: Some(effective),
            error,
        }
    }

    /// Takes note of what came of a list of updates, one after the other.
    pub fn apply(
        &mut self,
        updates: Vec<BrightnessUpdate>,
        replies: Vec<Result<(), MonitorError>>,
    ) -> (r: ApplyReport)
        requires
            old(self).wf(),
            updates@.len() == replies@.len(),
        ensures
            final(self).wf(),
            final(self)@ == old(self)@.after_all(updates@, replies@),
            r.outcomes@.len() == updates@.len(),
            forall|i: int|
                0 <= i < updates@.len() ==> (#[trigger] r.outcomes@[i])@ == old(self)@.after_all(
                    updates@.take(i),
                    replies@.take(i),
                ).outcome(updates@[i], replies@[i]),
    {
        let ghost start = self@;
        let mut outcomes: Vec<ApplyOutcome> = Vec::new();
        let mut answers = replies;
        let count: usize = updates.len();
        let mut i: usize = 0;
        for update in it: updates
            invariant
                it.seq() == updates@,
                updates@.len() == count,
                i == it.index(),
                self.wf(),
                updates@.len() == replies@.len(),
                answers@ == replies@.skip(i as int),
                self@ == start.after_all(updates@.take(i as int), replies@.take(i as int)),
                outcomes@.len() == i,
                forall|k: int|
                    0 <= k < i ==> (#[trigger] outcomes@[k])@ == start.after_all(
                        updates@.take(k),
                        replies@.take(k),
                    ).outcome(updates@[k], replies@[k]),
        {
            let reply = answers.remove(0);
            assert(reply == replies@[i as int]);
            proof {
                lemma_after_all_step(start, updates@, replies@, i as int);
            }
            outcomes.push(self.apply_update(update, reply));
            i += 1;
        }
        assert(updates@.take(i as int) =~= updates@);
        assert(replies@.take(i as int) =~= replies@);
        ApplyReport { outcomes }
    }
}

/// One more update after the first ones of a list.
proof fn lemma_after_all_step(
    start: ControllerModel,
    updates: Seq<BrightnessUpdate>,
    replies: Seq<Result<(), MonitorError>>,
    i: int,
)
    requires
        0 <= i < updates.len(),
        updates.len() == replies.len(),
    ensures
        start.after_all(updates.take(i + 1), replies.take(i + 1)) == start.after_all(
            updates.take(i),
            replies.take(i),
        ).after(updates[i], replies[i]),
{
    assert(updates.take(i + 1).drop_last() =~= updates.take(i));
    lemma_after_all_prefix(start, updates.take(i), replies.take(i + 1), replies.take(i));
}

/// Only the replies to the updates count.
proof fn lemma_after_all_prefix(
    start: ControllerModel,
    updates: Seq<BrightnessUpdate>,
    some: Seq<Result<(), MonitorError>>,
    other: Seq<Result<(), MonitorError>>,
)
    requires
        updates.len() <= some.len(),
        updates.len() <= other.len(),
        forall|k: int| 0 <= k < updates.len() ==> some[k] == other[k],
    ensures
        start.after_all(updates, some) == start.after_all(updates, other),
    decreases updates.len(),
{
    if updates.len() > 0 {
        lemma_after_all_prefix(start, updates.drop_last(), some, other);
    }
}

/// Whether two lists hold the same monitors, whatever their brightness.
pub open spec fn same_but_brightness(a: Seq<MonitorModel>, b: Seq<MonitorModel>) -> bool {
    a.len() == b.len() && forall|i: int|
        0 <= i < a.len() ==> {
            &&& (#[trigger] a[i]).id == b[i].id
            &&& a[i].name == b[i].name
            &&& a[i].device == b[i].device
        }
}

/// The place of an id depends on the ids of the monitors alone.
pub proof fn lemma_place_of_ids(a: Seq<MonitorModel>, b: Seq<MonitorModel>, id: Seq<char>)
    requires
        a.len() == b.len(),
        forall|k: int| 0 <= k < a.len() ==> (#[trigger] a[k]).id == b[k].id,
    ensures
        place_of(a, id) == place_of(b, id),
    decreases a.len(),
{
    if a.len() > 0 {
        assert(a[0].id == b[0].id);
        assert forall|k: int| 0 <= k < a.len() - 1 implies (#[trigger] a.drop_first()[k]).id
            == b.drop_first()[k].id by {
            assert(a[k + 1].id == b[k + 1].id);
        }
        lemma_place_of_ids(a.drop_first(), b.drop_first(), id);
    }
}

/// Updates change nothing of a controller but the brightness of its monitors.
pub proof fn updates_change_brightness_alone(
    controller: ControllerModel,
    updates: Seq<BrightnessUpdate>,
    replies: Seq<Result<(), MonitorError>>,
)
    requires
        updates.len() <= replies.len(),
    ensures
        controller.after_all(updates, replies).generation == controller.generation,
        same_but_brightness(controller.after_all(updates, replies).monitors, controller.monitors),
    decreases updates.len(),
{
    if updates.len() > 0 {
        let last = updates.len() - 1;
        updates_change_brightness_alone(controller, updates.drop_last(), replies);
        let earlier = controller.after_all(updates.drop_last(), replies);
        lemma_place_of(earlier.monitors, updates[last].id@);
    }
}

/// The request that an update makes necessary is the same before and after other updates, so
/// the requests of a list can all be made before any answer is taken note of.
pub proof fn commands_do_not_depend_on_replies(
    controller: ControllerModel,
    updates: Seq<BrightnessUpdate>,
    replies: Seq<Result<(), MonitorError>>,
    update: BrightnessUpdate,
)
    requires
        updates.len() <= replies.len(),
    ensures
        controller.after_all(updates, replies).command(update) == controller.command(update),
{
    updates_change_brightness_alone(controller, updates, replies);
    let later = controller.after_all(updates, replies);
    lemma_place_of_ids(later.monitors, controller.monitors, update.id@);
    lemma_place_of(controller.monitors, update.id@);
}

/// An update of another generation is refused and changes nothing.
pub proof fn stale_update_is_refused(
    controller: ControllerModel,
    update: BrightnessUpdate,
    reply: Result<(), MonitorError>,
)
    requires
        update.generation != controller.generation,
    ensures
        controller.command(update) is None,
        controller.after(update, reply) == controller,
        controller.outcome(update, reply).effective is None,
        controller.outcome(update, reply).error == Some(
            ErrorModel::StaleGeneration {
                requested: update.generation,
                current: controller.generation,
            }.text(),
        ),
{
}

/// Looking for monitors makes every update of the generation before it stale, and no
/// generation of monitors that were found is zero.
pub proof fn refresh_starts_another_generation(generation: u64)
    ensures
        next_generation(generation) != generation,
        next_generation(generation) != 0,
{
}

/// An update for a monitor that is not known is refused and changes nothing.
pub proof fn unknown_monitor_is_refused(
    controller: ControllerModel,
    update: BrightnessUpdate,
    reply: Result<(), MonitorError>,
)
    requires
        update.generation == controller.generation,
        !holds_id(controller.monitors, update.id@),
    ensures
        controller.command(update) is None,
        controller.after(update, reply) == controller,
        controller.outcome(update, reply).effective is None,
        controller.outcome(update, reply).error == Some(
            ErrorModel::UnknownMonitor(update.id@).text(),
        ),
{
    lemma_place_of(controller.monitors, update.id@);
    if place_of(controller.monitors, update.id@) is Some {
        let i = place_of(controller.monitors, update.id@)->Some_0;
        assert(controller.monitors[i].id == update.id@);
    }
}

/// The effective brightness of an outcome is the brightness that the controller knows of the
/// monitor afterwards: the percentage asked for where the monitor took it, and the brightness
/// before where it did not.
pub proof fn effective_brightness_is_the_one_known_afterwards(
    controller: ControllerModel,
    update: BrightnessUpdate,
    reply: Result<(), MonitorError>,
    i: int,
)
    requires
        controller.target(update) == Some(i),
    ensures
        0 <= i < controller.monitors.len(),
        controller.outcome(update, reply).effective == Some(
            controller.after(update, reply).monitors[i].brightness,
        ),
        reply is Ok ==> controller.after(update, reply).monitors[i].brightness == clamp_percent(
            update.value as int,
        ),
        reply is Err ==> controller.after(update, reply) == controller,
        forall|k: int|
            0 <= k < controller.monitors.len() && k != i ==> (#[trigger] controller.after(
                update,
                reply,
            ).monitors[k]) == controller.monitors[k],
{
    lemma_place_of(controller.monitors, update.id@);
}

} // verus!

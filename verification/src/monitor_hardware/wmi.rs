//! Monitors that are set through WMI, known by their place in the list alone.
use vstd::prelude::*;

use vstd::hash_map::StringHashMap;
use vstd::hash_set::StringHashSet;

use crate::monitor_control::display_config::{normalize_pnp_id, pnp_id};
use crate::monitor_control::{clamp_percent, percent_of, ErrorModel, MonitorError};
use crate::text::{chars_of, concat, string_of, trim, trimmed, views};
use crate::wide::{count_before_zero, decode, decode_units, zero_at};

verus! {

/// A monitor that is set through WMI.
#[derive(Debug)]
pub struct WmiMonitor {
    name: String,
    brightness: i32,
    instance_path: String,
}

/// What is known of a monitor.
pub struct WmiModel {
    pub name: Seq<char>,
    pub brightness: i32,
    pub instance_path: Seq<char>,
}

impl View for WmiMonitor {
    type V = WmiModel;

    closed spec fn view(&self) -> WmiModel {
        WmiModel {
            name: self.name@,
            brightness: self.brightness,
            instance_path: self.instance_path@,
        }
    }
}

impl WmiMonitor {
    /// The name of the monitor.
    pub fn name(&self) -> (r: &str)
        ensures
            r@ == self@.name,
    {
        self.name.as_str()
    }

    /// The brightness of the monitor.
    pub fn brightness(&self) -> (r: i32)
        ensures
            r == self@.brightness,
    {
        self.brightness
    }

    /// The object path by which the monitor is reached.
    pub fn instance_path(&self) -> (r: &str)
        ensures
            r@ == self@.instance_path,
    {
        self.instance_path.as_str()
    }

    /// Takes note of the answer to a request to set the brightness.
    pub fn set_brightness<E>(&mut self, percent: i32, reply: Result<(), E>) -> (r: Result<(), E>)
        ensures
            r == reply,
            final(self)@ == match reply {
                Ok(()) => WmiModel {
                    brightness: clamp_percent(percent as int) as i32,
                    ..old(self)@
                },
                Err(_) => old(self)@,
            },
    {
        if reply.is_ok() {
            self.brightness = percent_of(percent);
        }
        reply
    }
}

/// An object of the class `WmiMonitorBrightness`.
pub struct BrightnessInstance {
    pub instance_name: String,
    pub active: bool,
    pub current_brightness: u8,
}

/// An object of the class `WmiMonitorBrightnessMethods`.
pub struct MethodsInstance {
    pub instance_name: String,
    pub active: bool,
    pub path: String,
}

/// An object of the class `WmiMonitorID`.
pub struct NameInstance {
    pub instance_name: String,
    pub active: bool,
    pub user_friendly_name: Option<Vec<u16>>,
}

/// An object of the class `Win32_PnPEntity`.
pub struct PnpEntity {
    pub name: Option<String>,
    pub pnp_device_id: Option<String>,
}

/// Why a class could not be queried.
pub enum WmiFailure {
    /// There was no connection to query it by.
    NotConnected(String),
    /// The query failed.
    QueryFailed(String),
}

/// The error of a query that failed.
pub open spec fn failure_error(failure: WmiFailure, context: Seq<char>) -> ErrorModel {
    match failure {
        WmiFailure::NotConnected(details) => ErrorModel::Wmi {
            context: "WMI connection failed"@,
            details: details@,
        },
        WmiFailure::QueryFailed(details) => ErrorModel::Wmi { context, details: details@ },
    }
}

/// The error of a query that failed.
fn query_error(failure: WmiFailure, context: &'static str) -> (r: MonitorError)
    ensures
        r@ == failure_error(failure, context@),
{
    match failure {
        WmiFailure::NotConnected(details) => MonitorError::wmi("WMI connection failed", details),
        WmiFailure::QueryFailed(details) => MonitorError::wmi(context, details),
    }
}

/// The name in a buffer: the text before the first zero, or all of it, without white space at
/// its ends, where anything is left of it.
pub open spec fn friendly_name(buffer: Option<Vec<u16>>) -> Option<Seq<char>> {
    match buffer {
        Some(units) => {
            let text = trimmed(decode(units@.take(zero_at(units@) as int)));
            if text.len() == 0 {
                None
            } else {
                Some(text)
            }
        },
        None => None,
    }
}

/// The name in a buffer.
pub fn friendly_name_from_wmi(name: &Option<Vec<u16>>) -> (r: Option<String>)
    ensures
        match r {
            Some(text) => friendly_name(*name) == Some(text@),
            None => friendly_name(*name) is None,
        },
{
    let units = match name {
        Some(units) => units,
        None => {
            return None;
        },
    };
    let end: usize = count_before_zero(units);
    assert(units@.subrange(0, end as int) == units@.take(end as int));
    let text = decode_units(&units.as_slice()[0..end]);
    let value = trim(text.as_str());
    let chars = chars_of(value.as_str());
    if chars.len() == 0 {
        None
    } else {
        Some(value)
    }
}

/// The place of the last `c` in a text.
pub open spec fn last_position(s: Seq<char>, c: char) -> Option<int>
    decreases s.len(),
{
    if s.len() == 0 {
        None
    } else if s.last() == c {
        Some(s.len() - 1)
    } else {
        last_position(s.drop_last(), c)
    }
}

/// Whether all characters of a text are ASCII digits.
pub open spec fn all_digits(s: Seq<char>) -> bool {
    forall|i: int| 0 <= i < s.len() ==> '0' <= #[trigger] s[i] <= '9'
}

/// An instance name without the number at its end.
pub open spec fn instance_base(name: Seq<char>) -> Seq<char> {
    match last_position(name, '_') {
        Some(k) => if all_digits(name.skip(k + 1)) {
            name.take(k)
        } else {
            name
        },
        None => name,
    }
}

/// The plug-and-play id in an instance name.
pub open spec fn instance_pnp_id(name: Seq<char>) -> Option<Seq<char>> {
    let base = instance_base(name);
    if base.len() == 0 {
        None
    } else {
        Some(pnp_id(base))
    }
}

/// The length of an instance name without the number at its end.
fn base_length(chars: &[char]) -> (r: usize)
    ensures
        r <= chars@.len(),
        instance_base(chars@) == chars@.take(r as int),
{
    let count: usize = chars.len();
    let mut i: usize = count;
    let mut digits: bool = true;
    assert(chars@.take(count as int) =~= chars@);
    while i > 0
        invariant
            i <= count,
            chars@.len() == count,
            last_position(chars@, '_') == last_position(chars@.take(i as int), '_'),
            digits == all_digits(chars@.skip(i as int)),
        decreases i,
    {
        let c = chars[i - 1];
        assert(chars@.take(i as int).drop_last() =~= chars@.take(i - 1));
        if c == '_' {
            assert(last_position(chars@, '_') == Some(i - 1));
            return if digits {
                i - 1
            } else {
                count
            };
        }
        let is_digit: bool = '0' <= c && c <= '9';
        proof {
            let shorter = chars@.skip(i as int);
            let longer = chars@.skip(i - 1);
            assert(longer[0] == c);
            assert forall|k: int| 0 <= k < shorter.len() implies shorter[k] == longer[k + 1] by {}
            if digits && is_digit {
                assert forall|k: int| 0 <= k < longer.len() implies '0' <= #[trigger] longer[k]
                    <= '9' by {
                    if k > 0 {
                        assert(shorter[k - 1] == longer[k]);
                    }
                }
            }
            if all_digits(longer) {
                assert forall|k: int| 0 <= k < shorter.len() implies '0' <= #[trigger] shorter[k]
                    <= '9' by {
                    assert(shorter[k] == longer[k + 1]);
                }
            }
        }
        digits = digits && is_digit;
        i -= 1;
    }
    count
}

/// The plug-and-play id in an instance name: the name without the number at its end.
pub fn wmi_instance_to_pnp_id(instance_name: &str) -> (r: Option<String>)
    ensures
        match r {
            Some(id) => instance_pnp_id(instance_name@) == Some(id@),
            None => instance_pnp_id(instance_name@) is None,
        },
{
    let chars = chars_of(instance_name);
    let end: usize = base_length(&chars);
    if end == 0 {
        return None;
    }
    assert(chars@.subrange(0, end as int) == chars@.take(end as int));
    let base = string_of(&chars.as_slice()[0..end]);
    Some(normalize_pnp_id(base.as_str()))
}

/// What the values of a map say.
pub open spec fn texts(map: Map<Seq<char>, String>) -> Map<Seq<char>, Seq<char>> {
    map.map_values(|text: String| text@)
}

/// What a map holds for a key.
pub open spec fn lookup(map: Map<Seq<char>, Seq<char>>, key: Seq<char>) -> Option<Seq<char>> {
    if map.dom().contains(key) {
        Some(map[key])
    } else {
        None
    }
}

/// The object paths by which monitors are set, by instance name, the last one for each.
pub open spec fn method_paths(methods: Seq<MethodsInstance>) -> Map<Seq<char>, Seq<char>>
    decreases methods.len(),
{
    if methods.len() == 0 {
        Map::empty()
    } else {
        let earlier = method_paths(methods.drop_last());
        let last = methods.last();
        if last.active {
            earlier.insert(last.instance_name@, last.path@)
        } else {
            earlier
        }
    }
}

/// The names of the active monitors, by instance name, the last one for each.
pub open spec fn friendly_names(monitors: Seq<NameInstance>) -> Map<Seq<char>, Seq<char>>
    decreases monitors.len(),
{
    if monitors.len() == 0 {
        Map::empty()
    } else {
        let earlier = friendly_names(monitors.drop_last());
        let last = monitors.last();
        match friendly_name(last.user_friendly_name) {
            Some(name) => if last.active {
                earlier.insert(last.instance_name@, name)
            } else {
                earlier
            },
            None => earlier,
        }
    }
}

/// The names of the plug-and-play devices that have one, by id, the last one for each.
pub open spec fn device_names(devices: Seq<PnpEntity>) -> Map<Seq<char>, Seq<char>>
    decreases devices.len(),
{
    if devices.len() == 0 {
        Map::empty()
    } else {
        let earlier = device_names(devices.drop_last());
        let last = devices.last();
        match (last.pnp_device_id, last.name) {
            (Some(id), Some(name)) => if trimmed(name@).len() != 0 {
                earlier.insert(pnp_id(id@), trimmed(name@))
            } else {
                earlier
            },
            _ => earlier,
        }
    }
}

/// The object paths by which monitors are set, by instance name.
fn paths_by_instance(methods: &Vec<MethodsInstance>) -> (r: StringHashMap<String>)
    ensures
        texts(r@) == method_paths(methods@),
{
    let mut paths: StringHashMap<String> = StringHashMap::new();
    assert(texts(paths@) =~= Map::empty());
    let mut i: usize = 0;
    while i < methods.len()
        invariant
            i <= methods@.len(),
            texts(paths@) == method_paths(methods@.take(i as int)),
        decreases methods@.len() - i,
    {
        let method = &methods[i];
        let ghost earlier = texts(paths@);
        assert(methods@.take(i + 1).drop_last() =~= methods@.take(i as int));
        if method.active {
            paths.insert(method.instance_name.clone(), method.path.clone());
            assert(texts(paths@) =~= earlier.insert(method.instance_name@, method.path@));
        }
        i += 1;
    }
    assert(methods@.take(i as int) =~= methods@);
    paths
}

/// The names of the active monitors, by instance name.
pub fn wmi_monitor_names(monitors: Result<Vec<NameInstance>, String>) -> (r: Result<
    StringHashMap<String>,
    MonitorError,
>)
    ensures
        match (monitors, r) {
            (Ok(monitors), Ok(names)) => texts(names@) == friendly_names(monitors@),
            (Err(details), Err(error)) => error@ == (ErrorModel::Wmi {
                context: "WMI monitor name query failed"@,
                details: details@,
            }),
            _ => false,
        },
{
    let monitors = match monitors {
        Ok(monitors) => monitors,
        Err(details) => {
            return Err(MonitorError::wmi("WMI monitor name query failed", details));
        },
    };
    let mut names: StringHashMap<String> = StringHashMap::new();
    assert(texts(names@) =~= Map::empty());
    let mut i: usize = 0;
    while i < monitors.len()
        invariant
            i <= monitors@.len(),
            texts(names@) == friendly_names(monitors@.take(i as int)),
        decreases monitors@.len() - i,
    {
        let monitor = &monitors[i];
        let ghost earlier = texts(names@);
        assert(monitors@.take(i + 1).drop_last() =~= monitors@.take(i as int));
        if monitor.active {
            match friendly_name_from_wmi(&monitor.user_friendly_name) {
                Some(name) => {
                    let ghost text = name@;
                    names.insert(monitor.instance_name.clone(), name);
                    assert(texts(names@) =~= earlier.insert(monitor.instance_name@, text));
                },
                None => {},
            }
        }
        i += 1;
    }
    assert(monitors@.take(i as int) =~= monitors@);
    Ok(names)
}

/// The names of the plug-and-play devices, by id.
pub fn pnp_monitor_names(devices: Result<Vec<PnpEntity>, WmiFailure>) -> (r: Result<
    StringHashMap<String>,
    MonitorError,
>)
    ensures
        match (devices, r) {
            (Ok(devices), Ok(names)) => texts(names@) == device_names(devices@),
            (Err(failure), Err(error)) => error@ == failure_error(
                failure,
                "PNP monitor name query failed"@,
            ),
            _ => false,
        },
{
    let devices = match devices {
        Ok(devices) => devices,
        Err(failure) => {
            return Err(query_error(failure, "PNP monitor name query failed"));
        },
    };
    let mut names: StringHashMap<String> = StringHashMap::new();
    assert(texts(names@) =~= Map::empty());
    let mut i: usize = 0;
    while i < devices.len()
        invariant
            i <= devices@.len(),
            texts(names@) == device_names(devices@.take(i as int)),
        decreases devices@.len() - i,
    {
        let device = &devices[i];
        let ghost earlier = texts(names@);
        assert(devices@.take(i + 1).drop_last() =~= devices@.take(i as int));
        match (&device.pnp_device_id, &device.name) {
            (Some(id), Some(name)) => {
                let key = normalize_pnp_id(id.as_str());
                let short = trim(name.as_str());
                let chars = chars_of(short.as_str());
                if chars.len() != 0 {
                    names.insert(key, short);
                    assert(texts(names@) =~= earlier.insert(pnp_id(id@), trimmed(name@)));
                }
            },
            _ => {},
        }
        i += 1;
    }
    assert(devices@.take(i as int) =~= devices@);
    Ok(names)
}

/// What the queries tell about monitors.
pub struct WmiKnowledge {
    /// The object paths by which monitors are set.
    pub methods: Map<Seq<char>, Seq<char>>,
    /// The plug-and-play ids of the active monitors; where it is empty, none is known.
    pub active: Set<Seq<char>>,
    /// The names of monitors by instance name.
    pub names: Map<Seq<char>, Seq<char>>,
    /// The names of monitors by plug-and-play id.
    pub pnp_names: Map<Seq<char>, Seq<char>>,
}

impl WmiKnowledge {
    /// The name of a monitor.
    pub open spec fn name(self, instance: Seq<char>) -> Seq<char> {
        match lookup(self.names, instance) {
            Some(name) => name,
            None => match instance_pnp_id(instance) {
                Some(id) => match lookup(self.pnp_names, id) {
                    Some(name) => name,
                    None => "Integrated Monitor"@,
                },
                None => "Integrated Monitor"@,
            },
        }
    }

    /// Whether a monitor is known not to be active.
    pub open spec fn is_inactive(self, instance: Seq<char>) -> bool {
        !self.active.is_empty() && (instance_pnp_id(instance) matches Some(id)
            && !self.active.contains(id))
    }

    /// The monitor that an object describes, where it is active and can be set.
    pub open spec fn monitor(self, instance: BrightnessInstance) -> Option<WmiModel> {
        match lookup(self.methods, instance.instance_name@) {
            Some(path) => if instance.active && !self.is_inactive(instance.instance_name@) {
                Some(
                    WmiModel {
                        name: self.name(instance.instance_name@),
                        brightness: instance.current_brightness as i32,
                        instance_path: path,
                    },
                )
            } else {
                None
            },
            None => None,
        }
    }

    /// The monitors that the objects of a list describe.
    pub open spec fn monitors(self, instances: Seq<BrightnessInstance>) -> Seq<WmiModel>
        decreases instances.len(),
    {
        if instances.len() == 0 {
            seq![]
        } else {
            let earlier = self.monitors(instances.drop_last());
            match self.monitor(instances.last()) {
                Some(monitor) => earlier.push(monitor),
                None => earlier,
            }
        }
    }
}

/// What the monitors of a list are.
pub open spec fn models(monitors: Seq<WmiMonitor>) -> Seq<WmiModel> {
    Seq::new(monitors.len(), |i: int| monitors[i]@)
}

/// The monitors that were found, and what went wrong on the way.
#[derive(Debug)]
pub struct WmiDiscovery {
    pub monitors: Vec<WmiMonitor>,
    pub warnings: Vec<String>,
}

/// The names in an answer, none where there is no answer.
pub open spec fn names_in(answer: Result<StringHashMap<String>, MonitorError>) -> Map<
    Seq<char>,
    Seq<char>,
> {
    match answer {
        Ok(names) => texts(names@),
        Err(_) => Map::empty(),
    }
}

/// The ids in an answer, none where there is no answer.
pub open spec fn ids_in(answer: Result<StringHashSet, MonitorError>) -> Set<Seq<char>> {
    match answer {
        Ok(ids) => ids@,
        Err(_) => Set::empty(),
    }
}

/// The warning about an answer, where there is none.
pub open spec fn note<T>(text: Seq<char>, answer: Result<T, MonitorError>) -> Seq<Seq<char>> {
    match answer {
        Ok(_) => seq![],
        Err(error) => seq![text + error@.text()],
    }
}

/// Adds the warning about an error to a list.
fn add_note(warnings: &mut Vec<String>, text: &str, error: &MonitorError)
    ensures
        views(final(warnings)@) == views(old(warnings)@) + seq![text@ + error@.text()],
{
    let message = error.to_string();
    warnings.push(concat(text, message.as_str()));
    assert(views(warnings@) =~= views(old(warnings)@) + seq![text@ + error@.text()]);
}

/// The text that a map holds for a key.
fn text_in(map: &StringHashMap<String>, key: &str) -> (r: Option<String>)
    ensures
        match r {
            Some(text) => lookup(texts(map@), key@) == Some(text@),
            None => lookup(texts(map@), key@) is None,
        },
{
    match map.get(key) {
        Some(text) => Some(text.clone()),
        None => None,
    }
}

/// The monitors that WMI knows: those that are active and can be set. Where nothing is known of
/// the active paths or of names, that is warned of and done without.
pub fn discover(
    instances: Result<Vec<BrightnessInstance>, WmiFailure>,
    methods: Result<Vec<MethodsInstance>, String>,
    active: Result<StringHashSet, MonitorError>,
    names: Result<StringHashMap<String>, MonitorError>,
    pnp_names: Result<StringHashMap<String>, MonitorError>,
) -> (r: Result<WmiDiscovery, MonitorError>)
    ensures
        match (instances, methods) {
            (Err(failure), _) => r matches Err(error) && error@ == failure_error(
                failure,
                "WMI brightness query failed"@,
            ),
            (Ok(_), Err(details)) => r matches Err(error) && error@ == (ErrorModel::Wmi {
                context: "WMI brightness methods query failed"@,
                details: details@,
            }),
            (Ok(instances), Ok(methods)) => r matches Ok(discovery) && {
                &&& models(discovery.monitors@) == (WmiKnowledge {
                    methods: method_paths(methods@),
                    active: ids_in(active),
                    names: names_in(names),
                    pnp_names: names_in(pnp_names),
                }).monitors(instances@)
                &&& views(discovery.warnings@) == note(
                    "failed to query active display paths: "@,
                    active,
                ) + note("failed to query WMI monitor names: "@, names) + note(
                    "failed to query PNP monitor names: "@,
                    pnp_names,
                )
            },
        },
{
    let instances = match instances {
        Ok(instances) => instances,
        Err(failure) => {
            return Err(query_error(failure, "WMI brightness query failed"));
        },
    };
    let methods = match methods {
        Ok(methods) => methods,
        Err(details) => {
            return Err(MonitorError::wmi("WMI brightness methods query failed", details));
        },
    };
    let paths = paths_by_instance(&methods);
    let mut warnings: Vec<String> = Vec::new();
    assert(views(warnings@) =~= seq![]);
    let active_ids = match active {
        Ok(ids) => ids,
        Err(error) => {
            add_note(&mut warnings, "failed to query active display paths: ", &error);
            StringHashSet::new()
        },
    };
    assert(views(warnings@) =~= note("failed to query active display paths: "@, active));
    let friendly = match names {
        Ok(names) => names,
        Err(error) => {
            add_note(&mut warnings, "failed to query WMI monitor names: ", &error);
            StringHashMap::new()
        },
    };
    assert(texts(friendly@) =~= names_in(names));
    assert(views(warnings@) =~= note("failed to query active display paths: "@, active) + note(
        "failed to query WMI monitor names: "@,
        names,
    ));
    let devices = match pnp_names {
        Ok(names) => names,
        Err(error) => {
            add_note(&mut warnings, "failed to query PNP monitor names: ", &error);
            StringHashMap::new()
        },
    };
    assert(texts(devices@) =~= names_in(pnp_names));
    assert(views(warnings@) =~= note("failed to query active display paths: "@, active) + note(
        "failed to query WMI monitor names: "@,
        names,
    ) + note("failed to query PNP monitor names: "@, pnp_names));
    let ghost knowledge = WmiKnowledge {
        methods: texts(paths@),
        active: active_ids@,
        names: texts(friendly@),
        pnp_names: texts(devices@),
    };
    let mut monitors: Vec<WmiMonitor> = Vec::new();
    assert(models(monitors@) =~= seq![]);
    let mut i: usize = 0;
    while i < instances.len()
        invariant
            i <= instances@.len(),
            knowledge == (WmiKnowledge {
                methods: texts(paths@),
                active: active_ids@,
                names: texts(friendly@),
                pnp_names: texts(devices@),
            }),
            models(monitors@) == knowledge.monitors(instances@.take(i as int)),
        decreases instances@.len() - i,
    {
        let ghost earlier = models(monitors@);
        assert(instances@.take(i + 1).drop_last() =~= instances@.take(i as int));
        match build_monitor(&instances[i], &paths, &active_ids, &friendly, &devices) {
            Some(monitor) => {
                assert(models(monitors@.push(monitor)) =~= earlier.push(monitor@));
                monitors.push(monitor);
            },
            None => {},
        }
        i += 1;
    }
    assert(instances@.take(i as int) =~= instances@);
    Ok(WmiDiscovery { monitors, warnings })
}

/// The monitor that an object describes, where it is active and can be set.
pub fn build_monitor(
    instance: &BrightnessInstance,
    paths: &StringHashMap<String>,
    active_ids: &StringHashSet,
    names: &StringHashMap<String>,
    pnp_names: &StringHashMap<String>,
) -> (r: Option<WmiMonitor>)
    ensures
        ({
            let knowledge = WmiKnowledge {
                methods: texts(paths@),
                active: active_ids@,
                names: texts(names@),
                pnp_names: texts(pnp_names@),
            };
            match r {
                Some(monitor) => knowledge.monitor(*instance) == Some(monitor@),
                None => knowledge.monitor(*instance) is None,
            }
        }),
{
    if !instance.active {
        return None;
    }
    let instance_path = match text_in(paths, instance.instance_name.as_str()) {
        Some(path) => path,
        None => {
            return None;
        },
    };
    let id = wmi_instance_to_pnp_id(instance.instance_name.as_str());
    if !active_ids.is_empty() {
        match &id {
            Some(id) => {
                if !active_ids.contains(id.as_str()) {
                    return None;
                }
            },
            None => {},
        }
    }
    let known = match text_in(names, instance.instance_name.as_str()) {
        Some(name) => Some(name),
        None => match &id {
            Some(id) => text_in(pnp_names, id.as_str()),
            None => None,
        },
    };
    let name = match known {
        Some(name) => name,
        None => "Integrated Monitor".to_owned(),
    };
    Some(WmiMonitor { name, brightness: instance.current_brightness as i32, instance_path })
}

/// The monitors that are found are those that some object describes, and no others.
pub proof fn found_monitors_are_described(
    knowledge: WmiKnowledge,
    instances: Seq<BrightnessInstance>,
    monitor: WmiModel,
)
    ensures
        knowledge.monitors(instances).contains(monitor) <==> exists|i: int|
            0 <= i < instances.len() && knowledge.monitor(#[trigger] instances[i]) == Some(monitor),
    decreases instances.len(),
{
    if instances.len() > 0 {
        let earlier = instances.drop_last();
        let found = knowledge.monitors(earlier);
        let all = knowledge.monitors(instances);
        found_monitors_are_described(knowledge, earlier, monitor);
        if all.contains(monitor) {
            let k = choose|k: int| 0 <= k < all.len() && all[k] == monitor;
            if k < found.len() {
                assert(found[k] == monitor);
                let i = choose|i: int|
                    0 <= i < earlier.len() && knowledge.monitor(#[trigger] earlier[i]) == Some(
                        monitor,
                    );
                assert(instances[i] == earlier[i]);
            } else {
                assert(knowledge.monitor(instances[instances.len() - 1]) == Some(monitor));
            }
        }
        if exists|i: int|
            0 <= i < instances.len() && knowledge.monitor(#[trigger] instances[i]) == Some(
                monitor,
            ) {
            let i = choose|i: int|
                0 <= i < instances.len() && knowledge.monitor(#[trigger] instances[i]) == Some(
                    monitor,
                );
            if i < earlier.len() {
                assert(earlier[i] == instances[i]);
                let k = choose|k: int| 0 <= k < found.len() && found[k] == monitor;
                assert(all[k] == monitor);
            } else {
                assert(all[all.len() - 1] == monitor);
            }
        }
    }
}

/// Where nothing is known of the active paths, no monitor is taken for inactive.
pub proof fn unknown_paths_hide_no_monitor(knowledge: WmiKnowledge, instance: BrightnessInstance)
    requires
        knowledge.active == Set::<Seq<char>>::empty(),
        instance.active,
        knowledge.methods.dom().contains(instance.instance_name@),
    ensures
        knowledge.monitor(instance) is Some,
{
}

} // verus!

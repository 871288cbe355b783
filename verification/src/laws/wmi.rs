//! Monitors that WMI knows, and plug-and-play ids.
use vstd::prelude::*;

use vstd::hash_map::StringHashMap;
use vstd::hash_set::StringHashSet;

use crate::laws::spelling::{
    holds_at, prefix_ends_at_the_first_such_character, search_finds_the_first_place,
};
use crate::monitor_control::display_config::{
    device_path_id, gathered_ids, gdi_name, path_complaints, path_result, pnp_id, query_step,
    source_result, target_id_text, target_result, PathProbe,
};
use crate::monitor_control::{ErrorModel, MonitorError};
use crate::monitor_hardware::display_config::{probed_id, probed_ids, TargetProbe};
use crate::monitor_hardware::wmi::{
    device_names, failure_error, friendly_name, friendly_names, ids_in, instance_pnp_id,
    last_position, method_paths, names_in, note, BrightnessInstance, MethodsInstance,
    NameInstance, PnpEntity, WmiFailure, WmiKnowledge, WmiModel,
};
use crate::text::{decimal, position, prefix_without, trimmed, upper};
use crate::wide::{decode, lemma_char_code, terminated_text, zero_at};

verus! {

/// A monitor that is found has the name that WMI holds for it, whatever the plug-and-play devices
/// are called; the name of its plug-and-play device only where WMI holds none; and a general one
/// only where neither holds any. It has the object's own brightness and the path for its own name.
pub proof fn wmi_monitor_shows_its_object(
    knowledge: WmiKnowledge,
    instance: BrightnessInstance,
    monitor: WmiModel,
)
    requires
        knowledge.monitor(instance) == Some(monitor),
    ensures
        ({
            let own = instance.instance_name@;
            let id = instance_pnp_id(own);
            let device_is_named = id is Some && knowledge.pnp_names.dom().contains(id->Some_0);
            &&& instance.active
            &&& knowledge.names.dom().contains(own) ==> monitor.name == knowledge.names[own]
            &&& !knowledge.names.dom().contains(own) && device_is_named ==> monitor.name
                == knowledge.pnp_names[id->Some_0]
            &&& !knowledge.names.dom().contains(own) && !device_is_named ==> monitor.name
                == "Integrated Monitor"@
            &&& monitor.brightness == instance.current_brightness
            &&& knowledge.methods.dom().contains(own)
            &&& monitor.instance_path == knowledge.methods[own]
            &&& id is Some && !knowledge.active.is_empty() ==> knowledge.active.contains(
                id->Some_0,
            )
        }),
{
}

/// An object gives a monitor exactly where it is active, can be set, and is not known to belong to
/// a monitor that is not active.
pub proof fn wmi_objects_that_give_monitors(knowledge: WmiKnowledge, instance: BrightnessInstance)
    ensures
        ({
            let own = instance.instance_name@;
            let id = instance_pnp_id(own);
            knowledge.monitor(instance) is Some <==> {
                &&& instance.active
                &&& knowledge.methods.dom().contains(own)
                &&& knowledge.active.is_empty() || id is None || knowledge.active.contains(
                    id->Some_0,
                )
            }
        }),
{
}

/// The plug-and-play names do not matter to a monitor that WMI has a name for.
pub proof fn wmi_names_come_first(
    knowledge: WmiKnowledge,
    other: Map<Seq<char>, Seq<char>>,
    instance: BrightnessInstance,
)
    requires
        knowledge.names.dom().contains(instance.instance_name@),
    ensures
        knowledge.monitor(instance) == (WmiKnowledge { pnp_names: other, ..knowledge }).monitor(
            instance,
        ),
        knowledge.monitor(instance) matches Some(monitor) ==> monitor.name
            == knowledge.names[instance.instance_name@],
{
}

/// The objects are taken one by one, in their order.
pub proof fn wmi_objects_are_taken_in_order(
    knowledge: WmiKnowledge,
    instances: Seq<BrightnessInstance>,
    instance: BrightnessInstance,
)
    ensures
        knowledge.monitors(seq![]) == Seq::<WmiModel>::empty(),
        knowledge.monitors(instances.push(instance)) == match knowledge.monitor(instance) {
            Some(monitor) => knowledge.monitors(instances).push(monitor),
            None => knowledge.monitors(instances),
        },
{
    assert(instances.push(instance).drop_last() =~= instances);
}

/// A monitor is set by the path of the last active object with its name; one without such an object
/// by none.
pub proof fn method_paths_are_those_of_the_last_active_object(
    methods: Seq<MethodsInstance>,
    name: Seq<char>,
    i: int,
)
    requires
        -1 <= i < methods.len(),
        i >= 0 ==> methods[i].active && methods[i].instance_name@ == name,
        forall|k: int|
            i < k < methods.len() ==> !((#[trigger] methods[k]).active
                && methods[k].instance_name@ == name),
    ensures
        method_paths(methods).dom().contains(name) <==> i >= 0,
        i >= 0 ==> method_paths(methods)[name] == methods[i].path@,
    decreases methods.len(),
{
    if methods.len() > 0 {
        let last = methods.len() - 1;
        if i < last {
            let earlier = methods.drop_last();
            assert(!(methods[last].active && methods[last].instance_name@ == name));
            assert forall|k: int| i < k < earlier.len() implies !((#[trigger] earlier[k]).active
                && earlier[k].instance_name@ == name) by {
                assert(earlier[k] == methods[k]);
            }
            method_paths_are_those_of_the_last_active_object(earlier, name, i);
        }
    }
}

/// Whether an object gives a name to a monitor.
pub open spec fn gives_name(monitor: NameInstance, name: Seq<char>) -> bool {
    monitor.active && monitor.instance_name@ == name && friendly_name(monitor.user_friendly_name)
        is Some
}

/// A monitor has the name that the last active object with a name for it gives.
pub proof fn names_are_those_of_the_last_active_object(
    monitors: Seq<NameInstance>,
    name: Seq<char>,
    i: int,
)
    requires
        -1 <= i < monitors.len(),
        i >= 0 ==> gives_name(monitors[i], name),
        forall|k: int| i < k < monitors.len() ==> !gives_name(#[trigger] monitors[k], name),
    ensures
        friendly_names(monitors).dom().contains(name) <==> i >= 0,
        i >= 0 ==> Some(friendly_names(monitors)[name]) == friendly_name(
            monitors[i].user_friendly_name,
        ),
    decreases monitors.len(),
{
    if monitors.len() > 0 {
        let last = monitors.len() - 1;
        if i < last {
            let earlier = monitors.drop_last();
            assert(!gives_name(monitors[last], name));
            assert forall|k: int| i < k < earlier.len() implies !gives_name(
                #[trigger] earlier[k],
                name,
            ) by {
                assert(earlier[k] == monitors[k]);
            }
            names_are_those_of_the_last_active_object(earlier, name, i);
        }
    }
}

/// Whether a device gives a name to a plug-and-play id.
pub open spec fn names_device(device: PnpEntity, id: Seq<char>) -> bool {
    &&& device.pnp_device_id matches Some(own) && pnp_id(own@) == id
    &&& device.name matches Some(name) && trimmed(name@).len() > 0
}

/// A plug-and-play id has the name that the last device with it and with a name gives, without
/// white space at its ends.
pub proof fn device_names_are_those_of_the_last_device(
    devices: Seq<PnpEntity>,
    id: Seq<char>,
    i: int,
)
    requires
        -1 <= i < devices.len(),
        i >= 0 ==> names_device(devices[i], id),
        forall|k: int| i < k < devices.len() ==> !names_device(#[trigger] devices[k], id),
    ensures
        device_names(devices).dom().contains(id) <==> i >= 0,
        i >= 0 ==> device_names(devices)[id] == trimmed(devices[i].name->Some_0@),
    decreases devices.len(),
{
    if devices.len() > 0 {
        let last = devices.len() - 1;
        if i < last {
            let earlier = devices.drop_last();
            assert(!names_device(devices[last], id));
            assert forall|k: int| i < k < earlier.len() implies !names_device(
                #[trigger] earlier[k],
                id,
            ) by {
                assert(earlier[k] == devices[k]);
            }
            device_names_are_those_of_the_last_device(earlier, id, i);
        }
    }
}

/// A name in a buffer is the text before the first zero, or all of it where there is none, without
/// white space at its ends; there is none where nothing is left.
pub proof fn name_in_a_buffer(buffer: Vec<u16>, end: int)
    requires
        0 <= end <= buffer@.len(),
        forall|k: int| 0 <= k < end ==> #[trigger] buffer@[k] != 0,
        end < buffer@.len() ==> buffer@[end] == 0,
    ensures
        friendly_name(None) is None,
        ({
            let text = trimmed(decode(buffer@.take(end)));
            friendly_name(Some(buffer)) == if text.len() > 0 {
                Some(text)
            } else {
                None
            }
        }),
{
    crate::laws::spelling::terminator_is_the_first_zero(buffer@);
    assert(zero_at(buffer@) == end) by {
        if zero_at(buffer@) < end {
            assert(buffer@[zero_at(buffer@) as int] != 0);
        }
        if zero_at(buffer@) > end {
            assert(buffer@[end] != 0);
        }
    }
}

/// The last place of a character is behind all of a text that ends without it.
proof fn lemma_last_position(head: Seq<char>, c: char, tail: Seq<char>)
    requires
        forall|k: int| 0 <= k < tail.len() ==> #[trigger] tail[k] != c,
    ensures
        last_position(head.push(c) + tail, c) == Some(head.len() as int),
    decreases tail.len(),
{
    let s = head.push(c) + tail;
    if tail.len() == 0 {
        assert(s =~= head.push(c));
    } else {
        assert(s.last() == tail[tail.len() - 1]);
        assert(s.drop_last() =~= head.push(c) + tail.drop_last());
        lemma_last_position(head, c, tail.drop_last());
    }
}

/// There is no last place of a character that a text does not hold.
proof fn lemma_no_last_position(s: Seq<char>, c: char)
    requires
        forall|k: int| 0 <= k < s.len() ==> #[trigger] s[k] != c,
    ensures
        last_position(s, c) is None,
    decreases s.len(),
{
    if s.len() > 0 {
        assert(s[s.len() - 1] != c);
        lemma_no_last_position(s.drop_last(), c);
    }
}

/// The plug-and-play id of an object is its name without the number behind the last underscore.
/// Where what stands behind it is no number, or there is no underscore, the whole name counts.
pub proof fn plug_and_play_id_of_an_object(base: Seq<char>, end: Seq<char>)
    requires
        forall|k: int| 0 <= k < end.len() ==> #[trigger] end[k] != '_',
    ensures
        ({
            let digits = forall|k: int| 0 <= k < end.len() ==> '0' <= #[trigger] end[k] <= '9';
            let name = base.push('_') + end;
            &&& digits && base.len() > 0 ==> instance_pnp_id(name) == Some(pnp_id(base))
            &&& digits && base.len() == 0 ==> instance_pnp_id(name) is None
            &&& !digits ==> instance_pnp_id(name) == Some(pnp_id(name))
        }),
        end.len() > 0 ==> instance_pnp_id(end) == Some(pnp_id(end)),
        end.len() == 0 ==> instance_pnp_id(end) is None,
{
    let name = base.push('_') + end;
    lemma_last_position(base, '_', end);
    lemma_no_last_position(end, '_');
    assert(name.skip(base.len() as int + 1) =~= end);
    assert(name.take(base.len() as int) =~= base);
}

/// A plug-and-play id is spelled character by character: both separators become a backslash, ASCII
/// letters their capitals, and everything else stays.
pub proof fn spelling_of_a_plug_and_play_id(value: Seq<char>, i: int)
    requires
        0 <= i < value.len(),
    ensures
        pnp_id(value).len() == value.len(),
        value[i] == '#' || value[i] == '/' ==> pnp_id(value)[i] == '\\',
        'a' <= value[i] <= 'z' ==> pnp_id(value)[i] as int == value[i] as int - 'a' as int
            + 'A' as int,
        value[i] != '#' && value[i] != '/' && !('a' <= value[i] <= 'z') ==> pnp_id(value)[i]
            == value[i],
{
    lemma_char_code(value[i]);
}

/// A GDI device name is spelled in capitals, without white space at its ends.
pub proof fn spelling_of_a_gdi_name(value: Seq<char>, i: int)
    requires
        0 <= i < trimmed(value).len(),
    ensures
        gdi_name(value).len() == trimmed(value).len(),
        ({
            let c = trimmed(value)[i];
            &&& 'a' <= c <= 'z' ==> gdi_name(value)[i] as int == c as int - 'a' as int + 'A' as int
            &&& !('a' <= c <= 'z') ==> gdi_name(value)[i] == c
        }),
{
    lemma_char_code(trimmed(value)[i]);
}

/// The parts up to a character that neither of them holds are found again.
proof fn lemma_prefix(part: Seq<char>, c: char, rest: Seq<char>)
    requires
        forall|k: int| 0 <= k < part.len() ==> #[trigger] part[k] != c,
        rest.len() == 0 || rest[0] == c,
    ensures
        prefix_without(part + rest, c) == part.len(),
{
    let s = part + rest;
    prefix_ends_at_the_first_such_character(s, c);
    let end = prefix_without(s, c) as int;
    if end < part.len() {
        assert(s[end] == part[end]);
    } else if end > part.len() {
        assert(s[part.len() as int] == rest[0]);
    }
}

/// A device path that names a display, in whatever case, holds the hardware id and the instance id
/// behind it, each up to the next `#`. They make the plug-and-play id, without white space at their
/// ends; where nothing is left of one of them, there is none.
pub proof fn id_in_a_device_path(
    head: Seq<char>,
    marker: Seq<char>,
    hardware: Seq<char>,
    instance: Seq<char>,
    rest: Seq<char>,
)
    requires
        upper(marker) == "DISPLAY#"@,
        forall|k: int| 0 <= k < hardware.len() ==> #[trigger] hardware[k] != '#',
        forall|k: int| 0 <= k < instance.len() ==> #[trigger] instance[k] != '#',
        rest.len() == 0 || rest[0] == '#',
        forall|k: int|
            0 <= k < head.len() ==> !#[trigger] holds_at(
                upper(head + marker + hardware.push('#') + instance + rest),
                "DISPLAY#"@,
                k,
            ),
    ensures
        device_path_id(head + marker + hardware.push('#') + instance + rest) == if trimmed(
            hardware,
        ).len() > 0 && trimmed(instance).len() > 0 {
            Some(pnp_id("DISPLAY\\"@ + trimmed(hardware) + "\\"@ + trimmed(instance)))
        } else {
            None
        },
{
    let path = head + marker + hardware.push('#') + instance + rest;
    let sign = "DISPLAY#"@;
    let at = head.len() as int;
    assert(marker.len() == sign.len()) by {
        assert(upper(marker).len() == marker.len());
    }
    assert(holds_at(upper(path), sign, at)) by {
        assert forall|k: int| 0 <= k < sign.len() implies upper(path)[at + k]
            == #[trigger] sign[k] by {
            assert(path[at + k] == marker[k]);
            assert(upper(marker)[k] == sign[k]);
        }
    }
    search_finds_the_first_place(upper(path), sign);
    assert(position(upper(path), sign) == Some(head.len())) by {
        let found = position(upper(path), sign)->Some_0 as int;
        if found < at {
            assert(holds_at(upper(path), sign, found));
        }
        if found > at {
            assert(!holds_at(upper(path), sign, at));
        }
    }
    let behind = path.skip(at + sign.len());
    let tail = seq!['#'] + instance + rest;
    assert(behind =~= hardware + tail);
    lemma_prefix(hardware, '#', tail);
    assert(behind.take(hardware.len() as int) =~= hardware);
    assert(behind.skip(hardware.len() as int + 1) =~= instance + rest);
    lemma_prefix(instance, '#', rest);
    assert((instance + rest).take(instance.len() as int) =~= instance);
}

/// A device path that names no display, or in which no `#` follows, holds no id.
pub proof fn device_paths_without_an_id(path: Seq<char>)
    requires
        forall|k: int| !#[trigger] holds_at(upper(path), "DISPLAY#"@, k),
    ensures
        device_path_id(path) is None,
{
    search_finds_the_first_place(upper(path), "DISPLAY#"@);
}

/// What the two ends of an active path give: the names where both could be asked for and make
/// sense, and the first thing that went wrong otherwise.
pub proof fn ends_of_an_active_path(probe: PathProbe)
    ensures
        probe.source_status != 0 ==> source_result(
            probe.source_status,
            probe.source_name@,
            probe.source_id,
        ) == Err::<Seq<char>, ErrorModel>(
            ErrorModel::Win32 {
                context: "DisplayConfigGetDeviceInfo source query failed"@,
                code: probe.source_status as u32,
            },
        ),
        probe.source_status == 0 ==> source_result(
            probe.source_status,
            probe.source_name@,
            probe.source_id,
        ) == match terminated_text(probe.source_name@) {
            Some(name) => Ok::<Seq<char>, ErrorModel>(name),
            None => Err(
                ErrorModel::InvalidData {
                    context: "invalid active display source name"@,
                    details: "source id "@ + decimal(probe.source_id as nat),
                },
            ),
        },
        probe.target_status != 0 ==> target_result(
            probe.target_status,
            probe.target_path@,
            probe.target_id,
        ) == Err::<Seq<char>, ErrorModel>(
            ErrorModel::Win32 {
                context: "DisplayConfigGetDeviceInfo target query failed"@,
                code: probe.target_status as u32,
            },
        ),
        probe.target_status == 0 ==> target_result(
            probe.target_status,
            probe.target_path@,
            probe.target_id,
        ) == match target_id_text(probe.target_path@) {
            Some(id) => Ok::<Seq<char>, ErrorModel>(id),
            None => Err(
                ErrorModel::InvalidData {
                    context: "invalid active monitor device path"@,
                    details: "target id "@ + decimal(probe.target_id as nat),
                },
            ),
        },
        terminated_text(probe.target_path@) matches Some(text) ==> target_id_text(
            probe.target_path@,
        ) == device_path_id(text),
        terminated_text(probe.target_path@) is None ==> target_id_text(probe.target_path@) is None,
        ({
            let source = source_result(probe.source_status, probe.source_name@, probe.source_id);
            let target = target_result(probe.target_status, probe.target_path@, probe.target_id);
            &&& source matches Err(error) ==> path_result(probe) == Err::<
                (Seq<char>, Seq<char>),
                ErrorModel,
            >(error)
            &&& source is Ok && target is Err ==> path_result(probe) == Err::<
                (Seq<char>, Seq<char>),
                ErrorModel,
            >(target->Err_0)
            &&& source is Ok && target is Ok ==> path_result(probe) == Ok::<
                (Seq<char>, Seq<char>),
                ErrorModel,
            >((source->Ok_0, target->Ok_0))
        }),
{
}

/// The active ids are those of the paths that could be inspected, and each other path is complained
/// about once, in order.
pub proof fn active_paths_are_gathered(probes: Seq<PathProbe>, probe: PathProbe, id: Seq<char>)
    ensures
        gathered_ids(seq![]) == Set::<Seq<char>>::empty(),
        path_complaints(seq![]) == Seq::<Seq<char>>::empty(),
        gathered_ids(probes.push(probe)).contains(id) <==> gathered_ids(probes).contains(id) || (
        path_result(probe) matches Ok((_, target)) && target == id),
        path_complaints(probes.push(probe)) == match path_result(probe) {
            Ok(_) => path_complaints(probes),
            Err(error) => path_complaints(probes).push(
                "failed to inspect active display path: "@ + error.text(),
            ),
        },
{
    assert(probes.push(probe).drop_last() =~= probes);
}

/// The display configuration is taken where the query succeeds, asked for again while the buffers
/// are too small and fewer than three questions were put, and given up otherwise.
pub proof fn display_configuration_is_asked_for_three_times(attempts: nat, status: u32)
    ensures
        query_step(attempts, status) == Ok::<bool, ErrorModel>(true) <==> status == 0,
        query_step(attempts, status) == Ok::<bool, ErrorModel>(false) <==> status == 122
            && attempts < 2,
        status == 122 && attempts >= 2 ==> query_step(attempts, status) == Err::<bool, ErrorModel>(
            ErrorModel::Win32 { context: "QueryDisplayConfig remained unstable"@, code: 122 },
        ),
        status != 0 && status != 122 ==> query_step(attempts, status) == Err::<bool, ErrorModel>(
            ErrorModel::Win32 { context: "QueryDisplayConfig failed"@, code: status },
        ),
{
}

/// A target gives its id where it could be asked for, and none otherwise.
pub proof fn target_gives_its_id(probe: TargetProbe)
    ensures
        probe.status != 0 ==> probed_id(probe) is None,
        probe.status == 0 ==> probed_id(probe) == match terminated_text(probe.path@) {
            Some(path) => device_path_id(path),
            None => None,
        },
{
}

/// The error of a query tells whether there was no connection or the query itself failed.
pub proof fn failed_queries_say_why(failure: WmiFailure, context: Seq<char>)
    ensures
        failure matches WmiFailure::NotConnected(details) ==> failure_error(failure, context)
            == (ErrorModel::Wmi { context: "WMI connection failed"@, details: details@ }),
        failure matches WmiFailure::QueryFailed(details) ==> failure_error(failure, context)
            == (ErrorModel::Wmi { context, details: details@ }),
{
}

/// An answer that did not come holds nothing and is warned of; one that came holds what it says, and
/// nothing is warned of.
pub proof fn missing_answers_hold_nothing<T>(
    names: Result<StringHashMap<String>, MonitorError>,
    ids: Result<StringHashSet, MonitorError>,
    text: Seq<char>,
    answer: Result<T, MonitorError>,
    key: Seq<char>,
)
    ensures
        names matches Ok(found) ==> {
            &&& names_in(names).dom().contains(key) <==> found@.contains_key(key)
            &&& found@.contains_key(key) ==> names_in(names)[key] == found@[key]@
        },
        names is Err ==> !names_in(names).dom().contains(key),
        ids matches Ok(found) ==> (ids_in(ids).contains(key) <==> found@.contains(key)),
        ids is Err ==> ids_in(ids).is_empty(),
        answer is Ok ==> note(text, answer).len() == 0,
        answer matches Err(error) ==> note(text, answer) == seq![text + error@.text()],
{
}

/// The active ids are those that some target gives.
pub proof fn active_ids_are_those_of_the_targets(probes: Seq<TargetProbe>, id: Seq<char>)
    ensures
        probed_ids(probes).contains(id) <==> exists|i: int|
            0 <= i < probes.len() && #[trigger] probed_id(probes[i]) == Some(id),
{
}

} // verus!

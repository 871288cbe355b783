//! The plug-and-play ids of the monitors that show something.
use vstd::prelude::*;

use vstd::hash_set::StringHashSet;

use crate::monitor_control::display_config::{pnp_id_from_wide_path, target_id_text};
use crate::monitor_control::MonitorError;

verus! {

/// What the system says about the target of an active path.
pub struct TargetProbe {
    pub status: i32,
    /// The device path of the monitor, zero-terminated.
    pub path: Vec<u16>,
}

/// The plug-and-play id of a target, where the system tells it.
pub open spec fn probed_id(probe: TargetProbe) -> Option<Seq<char>> {
    if probe.status != 0 {
        None
    } else {
        target_id_text(probe.path@)
    }
}

/// The plug-and-play id of a target, where the system tells it.
pub fn active_display_pnp_id(probe: &TargetProbe) -> (r: Option<String>)
    ensures
        match r {
            Some(id) => probed_id(*probe) == Some(id@),
            None => probed_id(*probe) is None,
        },
{
    if probe.status != 0 {
        return None;
    }
    pnp_id_from_wide_path(&probe.path)
}

/// The plug-and-play ids of the targets of a list.
pub open spec fn probed_ids(probes: Seq<TargetProbe>) -> Set<Seq<char>> {
    Set::new(
        |id: Seq<char>|
            exists|i: int| 0 <= i < probes.len() && #[trigger] probed_id(probes[i]) == Some(id),
    )
}

/// The plug-and-play ids of the targets of the active paths, or the error of the query for the
/// paths.
pub fn active_display_pnp_ids(paths: Result<Vec<TargetProbe>, MonitorError>) -> (r: Result<
    StringHashSet,
    MonitorError,
>)
    ensures
        match (paths, r) {
            (Ok(probes), Ok(ids)) => ids@ == probed_ids(probes@),
            (Err(cause), Err(error)) => error == cause,
            _ => false,
        },
{
    let probes = match paths {
        Ok(probes) => probes,
        Err(error) => {
            return Err(error);
        },
    };
    let mut ids = StringHashSet::new();
    let mut i: usize = 0;
    assert(ids@ =~= probed_ids(probes@.take(0)));
    while i < probes.len()
        invariant
            i <= probes@.len(),
            ids@ == probed_ids(probes@.take(i as int)),
        decreases probes@.len() - i,
    {
        let ghost earlier = probes@.take(i as int);
        let ghost extended = probes@.take(i + 1);
        let ghost ids_before = ids@;
        match active_display_pnp_id(&probes[i]) {
            Some(id) => {
                ids.insert(id);
            },
            None => {},
        }
        proof {
            assert forall|id: Seq<char>| probed_ids(extended).contains(id) == ids@.contains(
                id,
            ) by {
                if probed_ids(extended).contains(id) {
                    let k = choose|k: int|
                        0 <= k < extended.len() && #[trigger] probed_id(extended[k]) == Some(id);
                    if k < earlier.len() {
                        assert(probed_id(earlier[k]) == Some(id));
                    }
                }
                if ids_before.contains(id) {
                    let k = choose|k: int|
                        0 <= k < earlier.len() && #[trigger] probed_id(earlier[k]) == Some(id);
                    assert(probed_id(extended[k]) == Some(id));
                }
                if probed_id(probes@[i as int]) == Some(id) {
                    assert(probed_id(extended[i as int]) == Some(id));
                }
            }
            assert(ids@ =~= probed_ids(extended));
        }
        i += 1;
    }
    assert(probes@.take(i as int) =~= probes@);
    Ok(ids)
}

} // verus!
